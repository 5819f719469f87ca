//! Titles and lengths of queued videos, looked up with `yt-dlp`.
//!
//! A lookup that fails leaves the queue as it is: title and length are then
//! simply absent.

use vstd::prelude::*;

use crate::fcast::Real;
use crate::text;

verus! {

// ---------------------------------------------------------------------------
// Which URLs are worth a lookup
// ---------------------------------------------------------------------------

/// `s` without `prefix`, where it begins with it.
pub open spec fn stripped(s: Seq<char>, prefix: Seq<char>) -> Seq<char> {
    if text::begins(s, prefix) {
        s.skip(prefix.len() as int)
    } else {
        s
    }
}

/// The host in what follows a URL's scheme, in lower case and without a
/// leading `www.`.
pub open spec fn host(rest: Seq<char>) -> Seq<char> {
    stripped(text::lowered(text::until(rest, seq!['/', '?', '#', ':'])), "www."@)
}

/// Whether a host is one of YouTube's.
pub open spec fn is_youtube_host(host: Seq<char>) -> bool {
    host == "youtube.com"@ || host == "m.youtube.com"@ || host == "music.youtube.com"@ || host
        == "youtu.be"@
}

/// Whether a URL is a web URL on one of YouTube's hosts.
pub open spec fn is_youtube(url: Seq<char>) -> bool {
    if text::begins(url, "https://"@) {
        is_youtube_host(host(url.skip("https://"@.len() as int)))
    } else if text::begins(url, "http://"@) {
        is_youtube_host(host(url.skip("http://"@.len() as int)))
    } else {
        false
    }
}

/// Whether the host of the URL `v`, whose scheme ends at `from`, is YouTube's.
fn has_youtube_host(v: &Vec<char>, from: usize) -> (r: bool)
    requires
        from <= v.len(),
    ensures
        r == is_youtube_host(host(v@.skip(from as int))),
{
    let mut stops: Vec<char> = Vec::new();
    stops.push('/');
    stops.push('?');
    stops.push('#');
    stops.push(':');
    assert(stops@ =~= seq!['/', '?', '#', ':']);
    let end: usize = text::stop_index(v, from, &stops);
    assert(v@.subrange(from as int, v.len() as int) =~= v@.skip(from as int));
    let name: String = text::lower_text(text::text_of(v, from, end).as_str());
    let chars: Vec<char> = text::chars_of(name.as_str());
    let www: Vec<char> = text::chars_of("www.");
    let start: usize = if text::begins_with(&chars, "www.") {
        www.len()
    } else {
        0
    };
    assert(chars@.subrange(start as int, chars.len() as int) =~= stripped(chars@, "www."@));
    let host: String = text::text_of(&chars, start, chars.len());
    text::same_text(host.as_str(), "youtube.com") || text::same_text(
        host.as_str(),
        "m.youtube.com",
    ) || text::same_text(host.as_str(), "music.youtube.com") || text::same_text(
        host.as_str(),
        "youtu.be",
    )
}

/// Whether `url` is worth a lookup.
pub fn is_youtube_url(url: &str) -> (r: bool)
    ensures
        r == is_youtube(url@),
{
    let v: Vec<char> = text::chars_of(url);
    if text::begins_with(&v, "https://") {
        let scheme: Vec<char> = text::chars_of("https://");
        has_youtube_host(&v, scheme.len())
    } else if text::begins_with(&v, "http://") {
        let scheme: Vec<char> = text::chars_of("http://");
        has_youtube_host(&v, scheme.len())
    } else {
        false
    }
}

// ---------------------------------------------------------------------------
// The lookup
// ---------------------------------------------------------------------------

/// The program that looks titles up: `CASTOFF_YTDLP`, where it is set.
pub fn ytdlp_program(setting: Option<String>) -> (r: String)
    ensures
        r@ == (match setting {
            Some(program) => program@,
            None => "yt-dlp"@,
        }),
{
    match setting {
        Some(program) => program,
        None => "yt-dlp".to_string(),
    }
}

/// The program's arguments for `url`: describe it as JSON, and download
/// nothing.
pub fn ytdlp_args(url: &str) -> (r: Vec<String>)
    ensures
        text::texts(r@) == seq![
            "-j"@,
            "--no-playlist"@,
            "--no-warnings"@,
            "--skip-download"@,
            url@,
        ],
{
    let mut r: Vec<String> = Vec::new();
    r.push("-j".to_string());
    r.push("--no-playlist".to_string());
    r.push("--no-warnings".to_string());
    r.push("--skip-download".to_string());
    r.push(url.to_string());
    assert(text::texts(r@) =~= seq![
        "-j"@,
        "--no-playlist"@,
        "--no-warnings"@,
        "--skip-download"@,
        url@,
    ]);
    r
}

/// A video's title and length.
#[derive(Debug)]
pub struct VideoMetadata {
    pub title: String,
    pub duration_secs: Real,
}

/// What the program left behind.
#[derive(Debug)]
pub enum ToolOutput {
    /// It could not be run.
    NotRun,
    /// It ran and reported a failure.
    Failed,
    /// It succeeded, and printed this.
    Printed(Vec<u8>),
}

/// What came of a lookup.
#[derive(Debug)]
pub enum Lookup {
    NotRun,
    Failed,
    /// What was printed is not JSON.
    Unparsable,
    /// The JSON lacks a title that is a string, or a length that is a number.
    Incomplete,
    Found(VideoMetadata),
}

/// A JSON value of the crate `serde_json`, carried and never looked into.
#[verifier::external_type_specification]
#[verifier::external_body]
pub struct ExJsonValue(serde_json::Value);

/// A parse error of the crate `serde_json`.
#[verifier::external_type_specification]
#[verifier::external_body]
pub struct ExJsonError(serde_json::Error);

/// The JSON value that bytes hold, where they hold one.
pub uninterp spec fn json_in(bytes: Seq<u8>) -> Option<serde_json::Value>;

/// The member of a JSON value with this key, where it is an object that has
/// one.
pub uninterp spec fn json_member(value: serde_json::Value, key: Seq<char>) -> Option<
    serde_json::Value,
>;

/// The text of a JSON value, where it is a string.
pub uninterp spec fn json_text(value: serde_json::Value) -> Option<Seq<char>>;

/// The bit pattern of the floating-point number that a JSON value stands for,
/// where it is a number.
pub uninterp spec fn json_number(value: serde_json::Value) -> Option<u64>;

/// `serde_json::from_slice`, into a `serde_json::Value`: what it gives is a
/// function of the bytes, named `json_in`.
#[verifier::external_body]
fn parse_json(bytes: &[u8]) -> (r: Result<serde_json::Value, serde_json::Error>)
    ensures
        match r {
            Ok(value) => json_in(bytes@) == Some(value),
            Err(_) => json_in(bytes@) is None,
        },
{
    serde_json::from_slice(bytes)
}

/// `serde_json::Value::get` with a string key: what it gives is a function of
/// the value and the key, named `json_member`.
#[verifier::external_body]
fn member_of<'a>(value: &'a serde_json::Value, key: &str) -> (r: Option<&'a serde_json::Value>)
    ensures
        match r {
            Some(member) => json_member(*value, key@) == Some(*member),
            None => json_member(*value, key@) is None,
        },
{
    value.get(key)
}

/// `serde_json::Value::as_str`: what it gives is a function of the value,
/// named `json_text`.
#[verifier::external_body]
fn text_in(value: &serde_json::Value) -> (r: Option<&str>)
    ensures
        text::opt_str(r) == json_text(*value),
{
    value.as_str()
}

/// `serde_json::Value::as_f64`, with the number handed over by its bit
/// pattern: what it gives is a function of the value, named `json_number`.
#[verifier::external_body]
fn number_in(value: &serde_json::Value) -> (r: Option<u64>)
    ensures
        r == json_number(*value),
{
    match value.as_f64() {
        Some(number) => Some(number.to_bits()),
        None => None,
    }
}

/// The text of a member, where there is one and it is a string.
pub open spec fn text_member(value: serde_json::Value, key: Seq<char>) -> Option<Seq<char>> {
    match json_member(value, key) {
        Some(member) => json_text(member),
        None => None,
    }
}

/// The number of a member, where there is one and it is a number.
pub open spec fn number_member(value: serde_json::Value, key: Seq<char>) -> Option<u64> {
    match json_member(value, key) {
        Some(member) => json_number(member),
        None => None,
    }
}

/// What is found, given the title and the length that the JSON has: both have
/// to be there.
pub fn described(title: Option<&str>, duration: Option<u64>) -> (r: Lookup)
    ensures
        match (text::opt_str(title), duration) {
            (Some(t), Some(bits)) => r matches Lookup::Found(video) && video.title@ == t
                && video.duration_secs == (Real { bits }),
            _ => r is Incomplete,
        },
{
    match (title, duration) {
        (Some(title), Some(bits)) => Lookup::Found(
            VideoMetadata { title: title.to_string(), duration_secs: Real { bits } },
        ),
        _ => Lookup::Incomplete,
    }
}

/// What came of a lookup, by what the program left behind.
pub fn fetch_metadata(output: &ToolOutput) -> (r: Lookup)
    ensures
        match output {
            ToolOutput::NotRun => r is NotRun,
            ToolOutput::Failed => r is Failed,
            ToolOutput::Printed(bytes) => match json_in(bytes@) {
                None => r is Unparsable,
                Some(value) => match (
                    text_member(value, "title"@),
                    number_member(value, "duration"@),
                ) {
                    (Some(title), Some(bits)) => r matches Lookup::Found(video) && video.title@
                        == title && video.duration_secs == (Real { bits }),
                    _ => r is Incomplete,
                },
            },
        },
{
    match output {
        ToolOutput::NotRun => Lookup::NotRun,
        ToolOutput::Failed => Lookup::Failed,
        ToolOutput::Printed(bytes) => match parse_json(bytes.as_slice()) {
            Err(_) => Lookup::Unparsable,
            Ok(value) => {
                let title: Option<&str> = match member_of(&value, "title") {
                    Some(member) => text_in(member),
                    None => None,
                };
                let duration: Option<u64> = match member_of(&value, "duration") {
                    Some(member) => number_in(member),
                    None => None,
                };
                described(title, duration)
            },
        },
    }
}

// ---------------------------------------------------------------------------
// Laws
// ---------------------------------------------------------------------------

proof fn lemma_scheme_is_stripped(scheme: Seq<char>, rest: Seq<char>)
    ensures
        text::begins(scheme + rest, scheme),
        (scheme + rest).skip(scheme.len() as int) == rest,
{
    assert((scheme + rest).take(scheme.len() as int) =~= scheme);
    assert((scheme + rest).skip(scheme.len() as int) =~= rest);
}

/// Whether a URL is YouTube's depends on its host alone: nothing behind the
/// host matters.
pub proof fn lemma_only_the_host_matters(name: Seq<char>, stop: char, rest: Seq<char>)
    requires
        stop == '/' || stop == '?' || stop == '#' || stop == ':',
    ensures
        host(name + seq![stop] + rest) == host(name),
        is_youtube("https://"@ + (name + seq![stop] + rest)) == is_youtube("https://"@ + name),
{
    let stops = seq!['/', '?', '#', ':'];
    assert(stops[0] == '/' && stops[1] == '?' && stops[2] == '#' && stops[3] == ':');
    text::lemma_until_ignores_the_rest(name, stop, rest, stops);
    lemma_scheme_is_stripped("https://"@, name + seq![stop] + rest);
    lemma_scheme_is_stripped("https://"@, name);
}

/// The host is recognized in any letter case.
pub proof fn lemma_the_host_ignores_case(rest: Seq<char>)
    ensures
        host(text::lowered(rest)) == host(rest),
{
    let stops = seq!['/', '?', '#', ':'];
    assert forall|c: char| #[trigger] stops.contains(text::lower(c)) <==> stops.contains(c) by {
        assert(stops[0] == '/' && stops[1] == '?' && stops[2] == '#' && stops[3] == ':');
        if stops.contains(c) {
            assert(text::lower(c) == c);
        }
        if stops.contains(text::lower(c)) {
            assert(text::lower(c) == c);
        }
    }
    text::lemma_until_keeps_case(rest, stops);
    text::lemma_lowered_twice(text::until(rest, stops));
}

/// A host is YouTube's where it is `youtube.com`, its mobile or music one, or
/// `youtu.be`, and no other is.
pub proof fn lemma_the_hosts_of_youtube(name: Seq<char>)
    ensures
        is_youtube_host(name) <==> (name == "youtube.com"@ || name == "m.youtube.com"@ || name
            == "music.youtube.com"@ || name == "youtu.be"@),
{
}

/// A host is what stands in front of the first `/`, `?`, `#` or `:`, in small
/// letters, without a `www.` in front.
pub proof fn lemma_what_the_host_is(name: Seq<char>, stop: char, rest: Seq<char>)
    requires
        forall|i: int|
            0 <= i < name.len() ==> #[trigger] name[i] != '/' && name[i] != '?' && name[i] != '#'
                && name[i] != ':',
        stop == '/' || stop == '?' || stop == '#' || stop == ':',
    ensures
        ({
            let small = text::lowered(name);
            let www = small.len() >= 4 && small.take(4) == "www."@;
            &&& host(name) == if www {
                small.skip(4)
            } else {
                small
            }
            &&& host(name + seq![stop] + rest) == host(name)
        }),
{
    reveal_strlit("www.");
    let stops = seq!['/', '?', '#', ':'];
    assert(stops[0] == '/' && stops[1] == '?' && stops[2] == '#' && stops[3] == ':');
    text::lemma_where_a_text_is_cut(name, stop, rest, stops);
}

/// A URL is worth a lookup where it is a web URL, by either scheme, on one of
/// these hosts; no other is.
pub proof fn lemma_which_urls_are_looked_up(url: Seq<char>, rest: Seq<char>)
    ensures
        is_youtube("https://"@ + rest) <==> is_youtube_host(host(rest)),
        is_youtube("http://"@ + rest) <==> is_youtube_host(host(rest)),
        !(url.len() >= 8 && url.take(8) == "https://"@) && !(url.len() >= 7 && url.take(7)
            == "http://"@) ==> !is_youtube(url),
{
    reveal_strlit("https://");
    reveal_strlit("http://");
    lemma_scheme_is_stripped("https://"@, rest);
    lemma_scheme_is_stripped("http://"@, rest);
    assert(("http://"@ + rest)[4] == ':');
    if text::begins("http://"@ + rest, "https://"@) {
        assert(("http://"@ + rest).take(8)[4] == "https://"@[4]);
    }
}

/// A title and a length are those of the members of these names, where they are
/// a string and a number.
pub proof fn lemma_what_is_read_of_a_member(
    value: serde_json::Value,
    key: Seq<char>,
    member: serde_json::Value,
)
    ensures
        json_member(value, key) == Some(member) ==> text_member(value, key) == json_text(member)
            && number_member(value, key) == json_number(member),
        json_member(value, key) is None ==> text_member(value, key) is None && number_member(
            value,
            key,
        ) is None,
{
}

} // verus!
