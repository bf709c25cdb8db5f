//! Helpers of the browser proxy: which domain a URL names, whether a domain
//! matches a pattern, and the media type of a file by its name.

use vstd::prelude::*;
use crate::text::{
    before_first, chars_of, concat3, decimal, ends_with_chars, first_index, has_suffix, index_of_char,
    lemma_first_index_bounds, lemma_first_index_is, lowercase, lowercase_text, opt_text, push_decimal, same_chars,
    same_text, string_of, strs, sub_chars,
};

verus! {

/// Result of one browser command.
#[derive(Clone, Debug, PartialEq, Eq)]
pub struct BrowserCommandResult {
    pub success: bool,
    pub result_json: String,
    pub error: String,
    pub binary_data: Vec<u8>,
    pub binary_mime: String,
}

/// Index of the first occurrence of `pat` in `s` at or after `i`, or the
/// length of `s` if there is none.
pub open spec fn find_from(s: Seq<char>, pat: Seq<char>, i: int) -> int
    decreases s.len() - i,
{
    if i < 0 || i >= s.len() || i + pat.len() > s.len() {
        s.len() as int
    } else if s.subrange(i, i + pat.len()) == pat {
        i
    } else {
        find_from(s, pat, i + 1)
    }
}

/// What follows the first `://`, or all of `url` if there is none.
pub open spec fn after_scheme(url: Seq<char>) -> Seq<char> {
    let at = find_from(url, "://"@, 0);
    if at + 3 <= url.len() {
        url.subrange(at + 3, url.len() as int)
    } else {
        url
    }
}

/// The host part of a URL as written: what follows the scheme, up to the
/// first `/` or `:`.
pub open spec fn host_part(url: Seq<char>) -> Seq<char> {
    before_first(before_first(after_scheme(url), '/'), ':')
}

fn find_text(s: &Vec<char>, pat: &Vec<char>) -> (at: usize)
    ensures
        at == find_from(s@, pat@, 0),
        at <= s.len(),
        at + pat.len() <= s.len() || at == s.len(),
{
    let mut i: usize = 0;
    while i < s.len() && pat.len() <= s.len() - i
        invariant
            i <= s.len(),
            find_from(s@, pat@, 0) == find_from(s@, pat@, i as int),
        decreases s.len() - i,
    {
        let window = sub_chars(s, i, i + pat.len());
        if same_chars(&window, pat) {
            return i;
        }
        i += 1;
    }
    s.len()
}

/// The host part of a URL as written, with or without a scheme.
pub fn host_part_of(url: &str) -> (host: String)
    ensures
        host@ == host_part(url@),
{
    let chars = chars_of(url);
    let pat = chars_of("://");
    proof {
        reveal_strlit("://");
    }
    let at = find_text(&chars, &pat);
    let rest = if chars.len() - at >= 3 {
        sub_chars(&chars, at + 3, chars.len())
    } else {
        assert(chars@.subrange(0, chars.len() as int) =~= chars@);
        sub_chars(&chars, 0, chars.len())
    };
    let slash = index_of_char(&rest, '/');
    let upto_slash = sub_chars(&rest, 0, slash);
    let colon = index_of_char(&upto_slash, ':');
    let host = sub_chars(&upto_slash, 0, colon);
    string_of(&host)
}

/// The domain a URL names: its host part in lowercase.
pub fn extract_domain(url: &str) -> (domain: String)
    ensures
        domain@ == lowercase_text(host_part(url@)),
{
    let host = host_part_of(url);
    lowercase(host.as_str())
}

/// Whether `domain` matches `pattern`: a pattern `*.d` matches `d` and every
/// domain that ends in `.d`; any other pattern matches itself only.
pub open spec fn matches_pattern(domain: Seq<char>, pattern: Seq<char>) -> bool {
    if pattern.len() >= 2 && pattern[0] == '*' && pattern[1] == '.' {
        let suffix = pattern.subrange(2, pattern.len() as int);
        domain == suffix || has_suffix(domain, seq!['.'] + suffix)
    } else {
        domain == pattern
    }
}

/// Whether a domain matches a pattern, which may start with `*.`.
pub fn domain_matches(domain: &str, pattern: &str) -> (r: bool)
    ensures
        r == matches_pattern(domain@, pattern@),
{
    let d = chars_of(domain);
    let p = chars_of(pattern);
    if p.len() >= 2 && p[0] == '*' && p[1] == '.' {
        let suffix = sub_chars(&p, 2, p.len());
        if same_chars(&d, &suffix) {
            return true;
        }
        let dotted = sub_chars(&p, 1, p.len());
        assert(dotted@ =~= seq!['.'] + suffix@);
        ends_with_chars(&d, &dotted)
    } else {
        same_chars(&d, &p)
    }
}

/// The media type for a file name that is already in lowercase.
pub open spec fn mime_of(lower: Seq<char>) -> Seq<char> {
    if has_suffix(lower, ".png"@) {
        "image/png"@
    } else if has_suffix(lower, ".jpg"@) || has_suffix(lower, ".jpeg"@) {
        "image/jpeg"@
    } else if has_suffix(lower, ".webp"@) {
        "image/webp"@
    } else if has_suffix(lower, ".gif"@) {
        "image/gif"@
    } else if has_suffix(lower, ".svg"@) {
        "image/svg+xml"@
    } else if has_suffix(lower, ".pdf"@) {
        "application/pdf"@
    } else if has_suffix(lower, ".json"@) {
        "application/json"@
    } else if has_suffix(lower, ".csv"@) {
        "text/csv"@
    } else if has_suffix(lower, ".txt"@) || has_suffix(lower, ".log"@) {
        "text/plain"@
    } else if has_suffix(lower, ".html"@) || has_suffix(lower, ".htm"@) {
        "text/html"@
    } else if has_suffix(lower, ".xml"@) {
        "application/xml"@
    } else if has_suffix(lower, ".zip"@) {
        "application/zip"@
    } else if has_suffix(lower, ".xlsx"@) {
        "application/vnd.openxmlformats-officedocument.spreadsheetml.sheet"@
    } else if has_suffix(lower, ".docx"@) {
        "application/vnd.openxmlformats-officedocument.wordprocessingml.document"@
    } else if has_suffix(lower, ".xls"@) {
        "application/vnd.ms-excel"@
    } else if has_suffix(lower, ".doc"@) {
        "application/msword"@
    } else {
        "application/octet-stream"@
    }
}

fn ends_with_text(s: &Vec<char>, suffix: &str) -> (r: bool)
    ensures
        r == has_suffix(s@, suffix@),
{
    let p = chars_of(suffix);
    ends_with_chars(s, &p)
}

/// The media type for a file name that is already in lowercase.
pub fn mime_for_lowercase(lower: &str) -> (mime: &'static str)
    ensures
        mime@ == mime_of(lower@),
{
    let s = chars_of(lower);
    if ends_with_text(&s, ".png") {
        "image/png"
    } else if ends_with_text(&s, ".jpg") || ends_with_text(&s, ".jpeg") {
        "image/jpeg"
    } else if ends_with_text(&s, ".webp") {
        "image/webp"
    } else if ends_with_text(&s, ".gif") {
        "image/gif"
    } else if ends_with_text(&s, ".svg") {
        "image/svg+xml"
    } else if ends_with_text(&s, ".pdf") {
        "application/pdf"
    } else if ends_with_text(&s, ".json") {
        "application/json"
    } else if ends_with_text(&s, ".csv") {
        "text/csv"
    } else if ends_with_text(&s, ".txt") || ends_with_text(&s, ".log") {
        "text/plain"
    } else if ends_with_text(&s, ".html") || ends_with_text(&s, ".htm") {
        "text/html"
    } else if ends_with_text(&s, ".xml") {
        "application/xml"
    } else if ends_with_text(&s, ".zip") {
        "application/zip"
    } else if ends_with_text(&s, ".xlsx") {
        "application/vnd.openxmlformats-officedocument.spreadsheetml.sheet"
    } else if ends_with_text(&s, ".docx") {
        "application/vnd.openxmlformats-officedocument.wordprocessingml.document"
    } else if ends_with_text(&s, ".xls") {
        "application/vnd.ms-excel"
    } else if ends_with_text(&s, ".doc") {
        "application/msword"
    } else {
        "application/octet-stream"
    }
}

/// The media type of a file, by the extension of its name in any case.
pub fn mime_from_extension(path: &str) -> (mime: &'static str)
    ensures
        mime@ == mime_of(lowercase_text(path@)),
{
    let lower = lowercase(path);
    mime_for_lowercase(lower.as_str())
}

/// Whether some pattern of `patterns` matches `domain`.
pub open spec fn matches_any(domain: Seq<char>, patterns: Seq<Seq<char>>) -> bool {
    exists|i: int| 0 <= i < patterns.len() && matches_pattern(domain, #[trigger] patterns[i])
}

/// What the domain rules make of a domain: empty domains pass; a domain that a
/// denied pattern matches is refused; and where there are allowed patterns, a
/// domain that none of them matches is refused.
pub open spec fn domain_ruling(domain: Seq<char>, denied: Seq<Seq<char>>, allowed: Seq<Seq<char>>) -> Result<
    (),
    Seq<char>,
> {
    if domain.len() == 0 {
        Ok(())
    } else if matches_any(domain, denied) {
        Err("domain '"@ + domain + "' is denied"@)
    } else if allowed.len() > 0 && !matches_any(domain, allowed) {
        Err("domain '"@ + domain + "' is not in allowed list"@)
    } else {
        Ok(())
    }
}

fn any_matches(domain: &str, patterns: &Vec<String>) -> (r: bool)
    ensures
        r == matches_any(domain@, strs(patterns@)),
{
    let mut i: usize = 0;
    while i < patterns.len()
        invariant
            i <= patterns.len(),
            forall|k: int| 0 <= k < i ==> !matches_pattern(domain@, #[trigger] strs(patterns@)[k]),
        decreases patterns.len() - i,
    {
        assert(strs(patterns@)[i as int] == patterns@[i as int]@);
        if domain_matches(domain, patterns[i].as_str()) {
            return true;
        }
        i += 1;
    }
    false
}

/// Checks a domain against the denied and the allowed patterns.
pub fn check_domain_rules(domain: &str, denied: &Vec<String>, allowed: &Vec<String>) -> (r: Result<(), String>)
    ensures
        match domain_ruling(domain@, strs(denied@), strs(allowed@)) {
            Ok(_) => r is Ok,
            Err(msg) => r matches Err(m) && m@ == msg,
        },
{
    if domain.unicode_len() == 0 {
        return Ok(());
    }
    if any_matches(domain, denied) {
        return Err(concat3("domain '", domain, "' is denied"));
    }
    if allowed.len() > 0 && !any_matches(domain, allowed) {
        return Err(concat3("domain '", domain, "' is not in allowed list"));
    }
    Ok(())
}

/// Whether an action navigates, so that its URL is checked.
pub fn is_navigation(action: &str) -> (r: bool)
    ensures
        r == (action@ == "open"@ || action@ == "navigate"@),
{
    same_text(action, "open") || same_text(action, "navigate")
}

/// Checks the URL of a browser action against the domain rules. Only
/// navigation is checked, and only if it names a URL.
pub fn check_domain(action: &str, url: &str, denied: &Vec<String>, allowed: &Vec<String>) -> (r: Result<
    (),
    String,
>)
    ensures
        match (if (action@ == "open"@ || action@ == "navigate"@) && url@.len() > 0 {
            domain_ruling(lowercase_text(host_part(url@)), strs(denied@), strs(allowed@))
        } else {
            Ok(())
        }) {
            Ok(_) => r is Ok,
            Err(msg) => r matches Err(m) && m@ == msg,
        },
{
    if !is_navigation(action) || url.unicode_len() == 0 {
        return Ok(());
    }
    let domain = extract_domain(url);
    check_domain_rules(domain.as_str(), denied, allowed)
}

// ── Parameters of a browser action ──────────────────────────────────────

/// The value of one parameter of a browser action.
#[derive(Clone, Debug, PartialEq, Eq)]
pub enum ParamValue {
    /// A string.
    Text(String),
    /// A boolean.
    Flag(bool),
    /// An integer.
    Number(i64),
    /// An array; each item is its string, or nothing if it is no string.
    List(Vec<Option<String>>),
    /// Anything else.
    Other,
}

/// Mathematical content of a [`ParamValue`].
pub enum ParamView {
    Text(Seq<char>),
    Flag(bool),
    Number(i64),
    List(Seq<Option<Seq<char>>>),
    Other,
}

impl View for ParamValue {
    type V = ParamView;

    open spec fn view(&self) -> ParamView {
        match self {
            ParamValue::Text(s) => ParamView::Text(s@),
            ParamValue::Flag(b) => ParamView::Flag(*b),
            ParamValue::Number(n) => ParamView::Number(*n),
            ParamValue::List(items) => ParamView::List(items@.map_values(|o: Option<String>| opt_text(o))),
            ParamValue::Other => ParamView::Other,
        }
    }
}

/// Views of a list of named parameters.
pub open spec fn named(params: Seq<(String, ParamValue)>) -> Seq<(Seq<char>, ParamView)> {
    params.map_values(|p: (String, ParamValue)| (p.0@, p.1@))
}

/// The value of the first parameter with the given name.
pub open spec fn lookup(params: Seq<(Seq<char>, ParamView)>, key: Seq<char>) -> Option<ParamView> {
    let at = first_index(params.map_values(|p: (Seq<char>, ParamView)| p.0), key);
    if at < params.len() {
        Some(params[at].1)
    } else {
        None
    }
}

/// An integer in decimal, with a minus sign if it is negative.
pub open spec fn signed_decimal(n: i64) -> Seq<char> {
    if n < 0 {
        seq!['-'] + decimal((-(n as int)) as nat)
    } else {
        decimal(n as nat)
    }
}

/// The strings among the items of an array, in order.
pub open spec fn texts_of(items: Seq<Option<Seq<char>>>) -> Seq<Seq<char>>
    decreases items.len(),
{
    if items.len() == 0 {
        Seq::empty()
    } else {
        match items.last() {
            Some(s) => texts_of(items.drop_last()).push(s),
            None => texts_of(items.drop_last()),
        }
    }
}

/// The values of all string parameters, in order.
pub open spec fn all_texts(params: Seq<(Seq<char>, ParamView)>) -> Seq<Seq<char>>
    decreases params.len(),
{
    if params.len() == 0 {
        Seq::empty()
    } else {
        match params.last().1 {
            ParamView::Text(s) => all_texts(params.drop_last()).push(s),
            _ => all_texts(params.drop_last()),
        }
    }
}

/// A string parameter as a positional argument.
pub open spec fn text_arg(params: Seq<(Seq<char>, ParamView)>, key: Seq<char>) -> Seq<Seq<char>> {
    match lookup(params, key) {
        Some(ParamView::Text(s)) => seq![s],
        _ => Seq::empty(),
    }
}

/// A string parameter as an option with its value.
pub open spec fn text_option(params: Seq<(Seq<char>, ParamView)>, key: Seq<char>, option: Seq<char>) -> Seq<
    Seq<char>,
> {
    match lookup(params, key) {
        Some(ParamView::Text(s)) => seq![option, s],
        _ => Seq::empty(),
    }
}

/// An integer parameter as an option with its value.
pub open spec fn number_option(params: Seq<(Seq<char>, ParamView)>, key: Seq<char>, option: Seq<char>) -> Seq<
    Seq<char>,
> {
    match lookup(params, key) {
        Some(ParamView::Number(n)) => seq![option, signed_decimal(n)],
        _ => Seq::empty(),
    }
}

/// A boolean parameter as a switch, present if the parameter is true.
pub open spec fn switch(params: Seq<(Seq<char>, ParamView)>, key: Seq<char>, option: Seq<char>) -> Seq<
    Seq<char>,
> {
    match lookup(params, key) {
        Some(ParamView::Flag(true)) => seq![option],
        _ => Seq::empty(),
    }
}

/// The strings of an array parameter as positional arguments.
pub open spec fn list_args(params: Seq<(Seq<char>, ParamView)>, key: Seq<char>) -> Seq<Seq<char>> {
    match lookup(params, key) {
        Some(ParamView::List(items)) => texts_of(items),
        _ => Seq::empty(),
    }
}

/// The command-line arguments that the parameters of an action become.
pub open spec fn cli_args(action: Seq<char>, params: Seq<(Seq<char>, ParamView)>) -> Seq<Seq<char>> {
    if action == "open"@ || action == "navigate"@ {
        text_arg(params, "url"@)
    } else if action == "click"@ || action == "hover"@ || action == "focus"@ {
        text_arg(params, "selector"@)
    } else if action == "fill"@ || action == "type"@ {
        text_arg(params, "selector"@) + text_arg(params, "value"@)
    } else if action == "select"@ {
        text_arg(params, "selector"@) + list_args(params, "values"@)
    } else if action == "screenshot"@ || action == "pdf"@ {
        text_arg(params, "path"@) + switch(params, "fullPage"@, "--full-page"@)
    } else if action == "download"@ {
        text_arg(params, "selector"@) + text_arg(params, "path"@)
    } else if action == "snapshot"@ {
        switch(params, "compact"@, "--compact"@) + number_option(params, "maxDepth"@, "--depth"@) + text_option(
            params,
            "selector"@,
            "--selector"@,
        )
    } else if action == "scroll"@ {
        text_arg(params, "selector"@) + text_arg(params, "direction"@)
    } else if action == "press"@ {
        text_arg(params, "key"@)
    } else if action == "wait"@ {
        text_arg(params, "text"@) + number_option(params, "timeout"@, "--timeout"@)
    } else if action == "evaluate"@ {
        text_arg(params, "expression"@)
    } else {
        all_texts(params)
    }
}

fn find_param<'a>(params: &'a Vec<(String, ParamValue)>, key: &str) -> (r: Option<&'a ParamValue>)
    ensures
        match lookup(named(params@), key@) {
            Some(v) => r matches Some(found) && found@ == v,
            None => r is None,
        },
{
    let ghost keys = named(params@).map_values(|p: (Seq<char>, ParamView)| p.0);
    let mut i: usize = 0;
    while i < params.len()
        invariant
            i <= params.len(),
            keys == named(params@).map_values(|p: (Seq<char>, ParamView)| p.0),
            forall|k: int| 0 <= k < i ==> keys[k] != key@,
        decreases params.len() - i,
    {
        assert(keys[i as int] == params@[i as int].0@);
        if same_text(params[i].0.as_str(), key) {
            proof {
                lemma_first_index_is(keys, key@, i as int);
                assert(named(params@)[i as int].1 == params@[i as int].1@);
            }
            return Some(&params[i].1);
        }
        i += 1;
    }
    proof {
        lemma_first_index_bounds(keys, key@);
    }
    None
}

fn signed_decimal_string(n: i64) -> (out: String)
    ensures
        out@ == signed_decimal(n),
{
    let mut buf: Vec<char> = Vec::new();
    if n < 0 {
        buf.push('-');
        let magnitude: u64 = ((-(n + 1)) as u64) + 1;
        push_decimal(&mut buf, magnitude);
        assert(buf@ =~= signed_decimal(n));
    } else {
        push_decimal(&mut buf, n as u64);
        assert(buf@ =~= signed_decimal(n));
    }
    string_of(&buf)
}

fn push_text_arg(args: &mut Vec<String>, params: &Vec<(String, ParamValue)>, key: &str)
    ensures
        strs(final(args)@) == strs(old(args)@) + text_arg(named(params@), key@),
{
    match find_param(params, key) {
        Some(ParamValue::Text(s)) => {
            args.push(s.clone());
            assert(strs(args@) =~= strs(old(args)@) + seq![s@]);
        },
        _ => {
            assert(strs(args@) =~= strs(old(args)@) + Seq::<Seq<char>>::empty());
        },
    }
}

fn push_text_option(args: &mut Vec<String>, params: &Vec<(String, ParamValue)>, key: &str, option: &str)
    ensures
        strs(final(args)@) == strs(old(args)@) + text_option(named(params@), key@, option@),
{
    match find_param(params, key) {
        Some(ParamValue::Text(s)) => {
            args.push(option.to_string());
            args.push(s.clone());
            assert(strs(args@) =~= strs(old(args)@) + seq![option@, s@]);
        },
        _ => {
            assert(strs(args@) =~= strs(old(args)@) + Seq::<Seq<char>>::empty());
        },
    }
}

fn push_number_option(args: &mut Vec<String>, params: &Vec<(String, ParamValue)>, key: &str, option: &str)
    ensures
        strs(final(args)@) == strs(old(args)@) + number_option(named(params@), key@, option@),
{
    match find_param(params, key) {
        Some(ParamValue::Number(n)) => {
            args.push(option.to_string());
            let text = signed_decimal_string(*n);
            args.push(text);
            assert(strs(args@) =~= strs(old(args)@) + seq![option@, signed_decimal(*n)]);
        },
        _ => {
            assert(strs(args@) =~= strs(old(args)@) + Seq::<Seq<char>>::empty());
        },
    }
}

fn push_switch(args: &mut Vec<String>, params: &Vec<(String, ParamValue)>, key: &str, option: &str)
    ensures
        strs(final(args)@) == strs(old(args)@) + switch(named(params@), key@, option@),
{
    match find_param(params, key) {
        Some(ParamValue::Flag(true)) => {
            args.push(option.to_string());
            assert(strs(args@) =~= strs(old(args)@) + seq![option@]);
        },
        _ => {
            assert(strs(args@) =~= strs(old(args)@) + Seq::<Seq<char>>::empty());
        },
    }
}

fn push_list_args(args: &mut Vec<String>, params: &Vec<(String, ParamValue)>, key: &str)
    ensures
        strs(final(args)@) == strs(old(args)@) + list_args(named(params@), key@),
{
    match find_param(params, key) {
        Some(ParamValue::List(items)) => {
            let ghost all = items@.map_values(|o: Option<String>| opt_text(o));
            let mut i: usize = 0;
            assert(strs(args@) =~= strs(old(args)@) + texts_of(all.take(0)));
            while i < items.len()
                invariant
                    i <= items.len(),
                    all == items@.map_values(|o: Option<String>| opt_text(o)),
                    strs(args@) == strs(old(args)@) + texts_of(all.take(i as int)),
                decreases items.len() - i,
            {
                let ghost before = strs(args@);
                assert(all.take(i + 1).drop_last() =~= all.take(i as int));
                assert(all.take(i + 1).last() == opt_text(items@[i as int]));
                match &items[i] {
                    Some(s) => {
                        args.push(s.clone());
                        assert(strs(args@) =~= before.push(s@));
                        assert(strs(args@) =~= strs(old(args)@) + texts_of(all.take(i + 1)));
                    },
                    None => {},
                }
                i += 1;
            }
            assert(all.take(items.len() as int) =~= all);
        },
        _ => {
            assert(strs(args@) =~= strs(old(args)@) + Seq::<Seq<char>>::empty());
        },
    }
}

fn push_all_texts(args: &mut Vec<String>, params: &Vec<(String, ParamValue)>)
    requires
        old(args)@.len() == 0,
    ensures
        strs(final(args)@) == all_texts(named(params@)),
{
    let ghost all = named(params@);
    let mut i: usize = 0;
    assert(strs(args@) =~= all_texts(all.take(0)));
    while i < params.len()
        invariant
            i <= params.len(),
            all == named(params@),
            strs(args@) == all_texts(all.take(i as int)),
        decreases params.len() - i,
    {
        let ghost before = strs(args@);
        assert(all.take(i + 1).drop_last() =~= all.take(i as int));
        assert(all.take(i + 1).last().1 == params@[i as int].1@);
        match &params[i].1 {
            ParamValue::Text(s) => {
                args.push(s.clone());
                assert(strs(args@) =~= before.push(s@));
            },
            _ => {},
        }
        i += 1;
    }
    assert(all.take(params.len() as int) =~= all);
}

/// Turns the named parameters of a browser action into the positional
/// arguments and options of the command line that carries it out. For an
/// action that is not known, every string parameter becomes a positional
/// argument.
pub fn params_to_cli_args(action: &str, params: &Vec<(String, ParamValue)>) -> (args: Vec<String>)
    ensures
        strs(args@) == cli_args(action@, named(params@)),
{
    let mut args: Vec<String> = Vec::new();
    assert(strs(args@) =~= Seq::<Seq<char>>::empty());
    let ghost none = Seq::<Seq<char>>::empty();
    if same_text(action, "open") || same_text(action, "navigate") {
        push_text_arg(&mut args, params, "url");
        assert(strs(args@) =~= cli_args(action@, named(params@)));
    } else if same_text(action, "click") || same_text(action, "hover") || same_text(action, "focus") {
        push_text_arg(&mut args, params, "selector");
        assert(strs(args@) =~= cli_args(action@, named(params@)));
    } else if same_text(action, "fill") || same_text(action, "type") {
        push_text_arg(&mut args, params, "selector");
        push_text_arg(&mut args, params, "value");
        assert(strs(args@) =~= cli_args(action@, named(params@)));
    } else if same_text(action, "select") {
        push_text_arg(&mut args, params, "selector");
        push_list_args(&mut args, params, "values");
        assert(strs(args@) =~= cli_args(action@, named(params@)));
    } else if same_text(action, "screenshot") || same_text(action, "pdf") {
        push_text_arg(&mut args, params, "path");
        push_switch(&mut args, params, "fullPage", "--full-page");
        assert(strs(args@) =~= cli_args(action@, named(params@)));
    } else if same_text(action, "download") {
        push_text_arg(&mut args, params, "selector");
        push_text_arg(&mut args, params, "path");
        assert(strs(args@) =~= cli_args(action@, named(params@)));
    } else if same_text(action, "snapshot") {
        push_switch(&mut args, params, "compact", "--compact");
        push_number_option(&mut args, params, "maxDepth", "--depth");
        push_text_option(&mut args, params, "selector", "--selector");
        assert(strs(args@) =~= cli_args(action@, named(params@)));
    } else if same_text(action, "scroll") {
        push_text_arg(&mut args, params, "selector");
        push_text_arg(&mut args, params, "direction");
        assert(strs(args@) =~= cli_args(action@, named(params@)));
    } else if same_text(action, "press") {
        push_text_arg(&mut args, params, "key");
        assert(strs(args@) =~= cli_args(action@, named(params@)));
    } else if same_text(action, "wait") {
        push_text_arg(&mut args, params, "text");
        push_number_option(&mut args, params, "timeout", "--timeout");
        assert(strs(args@) =~= cli_args(action@, named(params@)));
    } else if same_text(action, "evaluate") {
        push_text_arg(&mut args, params, "expression");
        assert(strs(args@) =~= cli_args(action@, named(params@)));
    } else {
        push_all_texts(&mut args, params);
    }
    args
}

} // verus!
