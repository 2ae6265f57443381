//! Finding out what to play: remote pages are looked up by a helper program
//! that describes them in JSON.
use crate::headers::HttpHeaders;
use crate::json::{index, member, members, parse, parsed_json, text_in, JsonModel};
use serde_json::Value;
use vstd::prelude::*;

verus! {

/// The texts of a list of strings.
pub open spec fn texts(list: Seq<String>) -> Seq<Seq<char>> {
    list.map_values(|s: String| s@)
}

/// Whether a source is looked up before it is played.
pub open spec fn is_remote(uri: Seq<char>) -> bool {
    "http://"@.is_prefix_of(uri) || "https://"@.is_prefix_of(uri)
}

/// Whether a source is looked up before it is played.
pub fn needs_lookup(uri: &str) -> (needed: bool)
    ensures
        needed == is_remote(uri@),
{
    crate::text::has_prefix(uri, "http://") || crate::text::has_prefix(uri, "https://")
}

/// The arguments with which the helper program looks up a page.
pub open spec fn lookup_texts(url: Seq<char>) -> Seq<Seq<char>> {
    seq!["--socket-timeout"@, "5"@, "-f"@, "bestaudio/worst"@, "-J"@, url]
}

/// The arguments with which the helper program looks up a page.
pub fn lookup_args(url: &str) -> (args: Vec<String>)
    ensures
        texts(args@) == lookup_texts(url@),
{
    let mut args: Vec<String> = Vec::new();
    args.push("--socket-timeout".to_owned());
    args.push("5".to_owned());
    args.push("-f".to_owned());
    args.push("bestaudio/worst".to_owned());
    args.push("-J".to_owned());
    args.push(url.to_owned());
    assert(texts(args@) =~= lookup_texts(url@));
    args
}

/// What the helper program says of a page, as far as it matters.
pub struct VideoInfo {
    /// Whether the page is a list of other pages.
    pub playlist: bool,
    /// Where the sound is.
    pub url: Option<String>,
    /// The header fields to request it with.
    pub headers: HttpHeaders,
}

/// The header fields that a value stands for: the members of an object, each
/// with its text if it is text.
pub open spec fn header_fields(value: JsonModel) -> Map<Seq<char>, Option<Seq<char>>> {
    match value {
        JsonModel::Object(members) => Map::new(
            |name: Seq<char>| members.dom().contains(name),
            |name: Seq<char>| text_in(members[name]),
        ),
        _ => Map::empty(),
    }
}

/// Whether a document describes a list of pages.
pub open spec fn is_playlist(document: JsonModel) -> bool {
    text_in(member(document, "_type"@)) == Some("playlist"@)
}

/// Reads the header fields of a page.
fn read_headers(value: &Value) -> (headers: HttpHeaders)
    ensures
        crate::headers::sorted(headers.fields()),
        headers.map() == header_fields(crate::json::json_contents(*value)),
{
    let mut headers = HttpHeaders::new();
    let ghost goal = header_fields(crate::json::json_contents(*value));
    if let Some(object) = value.as_object() {
        let list: Vec<(&String, &Value)> = members(object);
        let ghost held = crate::json::json_members(*object);
        let mut i: usize = 0;
        while i < list.len()
            invariant
                i <= list@.len(),
                crate::headers::sorted(headers.fields()),
                forall|a: int, b: int|
                    0 <= a < b < list@.len() ==> (#[trigger] list@[a]).0@ != (
                    #[trigger] list@[b]).0@,
                forall|a: int|
                    0 <= a < list@.len() ==> held.dom().contains((#[trigger] list@[a]).0@)
                        && held[list@[a].0@] == crate::json::json_contents(*list@[a].1),
                forall|name: Seq<char>| #[trigger]
                    headers.map().dom().contains(name) <==> exists|a: int|
                        0 <= a < i && (#[trigger] list@[a]).0@ == name,
                forall|a: int|
                    0 <= a < i ==> headers.map()[(#[trigger] list@[a]).0@] == text_in(
                        crate::json::json_contents(*list@[a].1),
                    ),
            decreases list@.len() - i,
        {
            let ghost before = headers.map();
            let name: String = list[i].0.as_str().to_owned();
            let value: Option<String> = match list[i].1.as_str() {
                Some(text) => Some(text.to_owned()),
                None => None,
            };
            headers.insert(name, value);
            proof {
                assert forall|name: Seq<char>| #[trigger]
                    headers.map().dom().contains(name) <==> exists|a: int|
                        0 <= a < i + 1 && (#[trigger] list@[a]).0@ == name by {
                    assert(before.dom().contains(name) <==> exists|a: int|
                        0 <= a < i && (#[trigger] list@[a]).0@ == name);
                    if before.dom().contains(name) {
                        let a = choose|a: int| 0 <= a < i && (#[trigger] list@[a]).0@ == name;
                        assert(0 <= a < i + 1 && list@[a].0@ == name);
                    }
                    if name == list@[i as int].0@ {
                        assert(0 <= i < i + 1 && list@[i as int].0@ == name);
                    }
                }
            }
            i = i + 1;
        }
        proof {
            assert forall|name: Seq<char>| #[trigger]
                headers.map().dom().contains(name) implies goal.dom().contains(name)
                && headers.map()[name] == goal[name] by {
                let a = choose|a: int| 0 <= a < i && (#[trigger] list@[a]).0@ == name;
                assert(headers.map()[list@[a].0@] == text_in(
                    crate::json::json_contents(*list@[a].1),
                ));
            }
            assert forall|name: Seq<char>| goal.dom().contains(
                name,
            ) implies headers.map().dom().contains(name) by {
                assert(held.dom().contains(name));
            }
        }
    }
    assert(headers.map() =~= goal);
    headers
}

/// Reads what the helper program says of a page.
pub(crate) fn read_video_info(document: &Value) -> (info: VideoInfo)
    ensures
        info.playlist == is_playlist(crate::json::json_contents(*document)),
        crate::headers::text_of(info.url) == text_in(
            member(crate::json::json_contents(*document), "url"@),
        ),
        crate::headers::sorted(info.headers.fields()),
        info.headers.map() == header_fields(
            member(crate::json::json_contents(*document), "http_headers"@),
        ),
{
    let playlist: bool = match index(document, "_type").as_str() {
        Some(kind) => kind.to_owned() == "playlist".to_owned(),
        None => false,
    };
    let url: Option<String> = match index(document, "url").as_str() {
        Some(url) => Some(url.to_owned()),
        None => None,
    };
    let headers: HttpHeaders = read_headers(index(document, "http_headers"));
    VideoInfo { playlist, url, headers }
}

/// Where to get the sound of a page, and how to ask for it.
pub struct Source {
    pub url: String,
    pub headers: HttpHeaders,
}

/// What to play for a page: nothing for a list of pages, nor for a page
/// without an address.
pub fn playable(info: VideoInfo) -> (source: Option<Source>)
    ensures
        source is Some <==> !info.playlist && info.url is Some,
        source matches Some(found) ==> Some(found.url) == info.url && found.headers
            == info.headers,
{
    if info.playlist {
        return None;
    }
    match info.url {
        Some(url) => Some(Source { url, headers: info.headers }),
        None => None,
    }
}

/// Whether the output of the helper program describes something to play.
pub open spec fn output_is_playable(output: Seq<u8>) -> bool {
    match parsed_json(output) {
        Some(document) => !is_playlist(document) && text_in(member(document, "url"@)) is Some,
        None => false,
    }
}

/// Whether a source is the one that the output of the helper program describes.
pub open spec fn output_describes(output: Seq<u8>, source: Source) -> bool {
    match parsed_json(output) {
        Some(document) => {
            &&& text_in(member(document, "url"@)) == Some(source.url@)
            &&& source.headers.map() == header_fields(member(document, "http_headers"@))
            &&& crate::headers::sorted(source.headers.fields())
        },
        None => false,
    }
}

/// What to play, going by the output of the helper program.
pub fn resolve(output: &[u8]) -> (source: Option<Source>)
    ensures
        source is Some <==> output_is_playable(output@),
        source matches Some(found) ==> output_describes(output@, found),
{
    match parse(output) {
        Ok(document) => playable(read_video_info(&document)),
        Err(_) => None,
    }
}

/// A source is looked up when it begins with the name of a web protocol, and
/// only then.
pub proof fn law_web_addresses_are_remote(uri: Seq<char>)
    ensures
        is_remote(uri) <==> (uri.len() >= 7 && uri.take(7) == "http://"@) || (uri.len() >= 8
            && uri.take(8) == "https://"@),
{
    reveal_strlit("http://");
    reveal_strlit("https://");
}

/// The helper program is told how long to wait, which format to pick and that
/// it is to answer in JSON, and the address comes last, unchanged.
pub proof fn law_lookup_ends_in_the_address(url: Seq<char>)
    ensures
        lookup_texts(url).len() == 6,
        lookup_texts(url)[0] == "--socket-timeout"@,
        lookup_texts(url)[1] == "5"@,
        lookup_texts(url)[2] == "-f"@,
        lookup_texts(url)[3] == "bestaudio/worst"@,
        lookup_texts(url)[4] == "-J"@,
        lookup_texts(url)[5] == url,
{
}

/// The header fields of an object are its members, each with its text if it is
/// text. What is no object has none.
pub proof fn law_headers_are_the_members(
    members: Map<Seq<char>, JsonModel>,
    name: Seq<char>,
    other: JsonModel,
)
    requires
        !(other is Object),
    ensures
        ({
            let fields = header_fields(JsonModel::Object(members));
            &&& fields.dom().contains(name) <==> members.dom().contains(name)
            &&& members.dom().contains(name) ==> (members[name] matches JsonModel::Text(text)
                ==> fields[name] == Some(text))
            &&& members.dom().contains(name) && !(members[name] is Text) ==> fields[name] is None
        }),
        !header_fields(other).dom().contains(name),
{
}

/// There is something to play in the output of the helper program exactly when
/// it is an object whose address is text and whose type is not that of a list.
pub proof fn law_what_can_be_played(output: Seq<u8>, members: Map<Seq<char>, JsonModel>)
    ensures
        parsed_json(output) is None ==> !output_is_playable(output),
        parsed_json(output) matches Some(document) ==> (!(document is Object)
            ==> !output_is_playable(output)),
        parsed_json(output) == Some(JsonModel::Object(members)) ==> (output_is_playable(output)
            <==> members.dom().contains("url"@) && members["url"@] is Text && !(
        members.dom().contains("_type"@) && members["_type"@] == JsonModel::Text("playlist"@))),
{
}

/// The source that an output describes has the address and the header fields
/// that the output gives.
pub proof fn law_source_is_as_described(
    output: Seq<u8>,
    source: Source,
    members: Map<Seq<char>, JsonModel>,
)
    requires
        parsed_json(output) == Some(JsonModel::Object(members)),
        output_describes(output, source),
    ensures
        members.dom().contains("url"@),
        members["url"@] == JsonModel::Text(source.url@),
        members.dom().contains("http_headers"@) ==> source.headers.map() == header_fields(
            members["http_headers"@],
        ),
        !members.dom().contains("http_headers"@) ==> source.headers.map() == Map::<
            Seq<char>,
            Option<Seq<char>>,
        >::empty(),
        crate::headers::sorted(source.headers.fields()),
{
}

/// The texts of a list are those of its strings, one by one.
pub proof fn law_texts_one_by_one(list: Seq<String>)
    ensures
        texts(list).len() == list.len(),
        forall|i: int| 0 <= i < list.len() ==> #[trigger] texts(list)[i] == list[i]@,
{
}

} // verus!
