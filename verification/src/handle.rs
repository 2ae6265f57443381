//! A player as a plugin sees it.
use crate::ffmpeg::{decoder_args, FFmpeg, FFmpegModel};
use crate::headers::{header_text, in_order, law_sorted_is_in_order, lists_in_order};
use crate::json::{member, parsed_json, text_in, JsonModel};
use crate::player::PlayerStatus;
use crate::source::{
    header_fields, is_remote, lookup_args, lookup_texts, needs_lookup, output_is_playable, resolve,
    texts, Source,
};
use vstd::prelude::*;

verus! {

/// The settings of a decoder, if there is one.
pub open spec fn settings_of(ffmpeg: Option<FFmpeg>) -> Option<FFmpegModel> {
    match ffmpeg {
        Some(ffmpeg) => Some(ffmpeg@),
        None => None,
    }
}

/// The index, counted from one, of the client in a slot, and zero for none.
pub open spec fn index_of(slot: Option<usize>) -> i32 {
    match slot {
        Some(slot) => (slot + 1) as i32,
        None => 0,
    }
}

/// A player that a plugin holds. Until it is played it collects the settings
/// of the decoder.
pub struct AudioPlayerHandle {
    ffmpeg: Option<FFmpeg>,
    slot: Option<usize>,
}

impl AudioPlayerHandle {
    /// The settings of the decoder, while it was not started.
    pub closed spec fn settings(&self) -> Option<FFmpegModel> {
        settings_of(self.ffmpeg)
    }

    /// The slot that was played in last.
    pub closed spec fn spec_slot(&self) -> Option<usize> {
        self.slot
    }

    /// A player that was not played yet.
    pub fn new() -> (handle: AudioPlayerHandle)
        ensures
            handle.settings() == Some(
                FFmpegModel { in_args: Seq::empty(), args: Seq::empty(), ss: "0"@ },
            ),
            handle.spec_slot() is None,
    {
        AudioPlayerHandle { ffmpeg: Some(FFmpeg::new()), slot: None }
    }

    /// The bytes played so far, none before there is a player.
    pub fn played_bytes(&self, player: Option<PlayerStatus>) -> (bytes: usize)
        ensures
            bytes == match player {
                Some(status) => status.read_size,
                None => 0,
            },
    {
        match player {
            Some(status) => status.read_size,
            None => 0,
        }
    }

    /// Whether the source has ended. What has no player yet has not.
    pub fn finished(&self, player: Option<PlayerStatus>) -> (finished: bool)
        ensures
            finished == (player is Some && player->0.finished),
    {
        match player {
            Some(status) => status.finished,
            None => false,
        }
    }

    /// The slot that was played in last.
    pub fn slot(&self) -> (slot: Option<usize>)
        ensures
            slot == self.spec_slot(),
    {
        self.slot
    }

    /// The index, counted from one, of the client that was played as last, and
    /// zero before that.
    pub fn client_index(&self) -> (client: i32)
        requires
            self.spec_slot() matches Some(slot) ==> slot < usize::MAX,
        ensures
            client == index_of(self.spec_slot()),
    {
        match self.slot {
            Some(slot) => (slot + 1) as i32,
            None => 0,
        }
    }

    /// Sets the position to start from, in seconds. Too late once played.
    pub fn set_from(&mut self, seconds: &str)
        ensures
            final(self).spec_slot() == old(self).spec_slot(),
            final(self).settings() == match old(self).settings() {
                Some(settings) => Some(FFmpegModel { ss: seconds@, ..settings }),
                None => None,
            },
    {
        if let Some(ffmpeg) = self.ffmpeg.as_mut() {
            ffmpeg.ss(seconds);
        }
    }

    /// Adds an argument before the input. Too late once played.
    pub fn add_input_arg(&mut self, arg: &str)
        ensures
            final(self).spec_slot() == old(self).spec_slot(),
            final(self).settings() == match old(self).settings() {
                Some(settings) => Some(
                    FFmpegModel { in_args: settings.in_args.push(arg@), ..settings },
                ),
                None => None,
            },
    {
        if let Some(ffmpeg) = self.ffmpeg.as_mut() {
            ffmpeg.in_arg(arg);
        }
    }

    /// Adds an argument behind the input. Too late once played.
    pub fn add_arg(&mut self, arg: &str)
        ensures
            final(self).spec_slot() == old(self).spec_slot(),
            final(self).settings() == match old(self).settings() {
                Some(settings) => Some(FFmpegModel { args: settings.args.push(arg@), ..settings }),
                None => None,
            },
    {
        if let Some(ffmpeg) = self.ffmpeg.as_mut() {
            ffmpeg.arg(arg);
        }
    }

    /// Begins to play `uri` in a slot. The decoder goes with the task, so only
    /// the first task of a player has one.
    pub fn play(&mut self, slot: usize, uri: &str) -> (task: PlayTask)
        ensures
            task.settings() == old(self).settings(),
            task.url() == uri@,
            task.spec_slot() == slot,
            final(self).settings() is None,
            final(self).spec_slot() == Some(slot),
    {
        let ffmpeg: Option<FFmpeg> = self.ffmpeg.take();
        self.slot = Some(slot);
        PlayTask { ffmpeg, url: uri.to_owned(), slot }
    }
}

/// The settings with which a source is requested: its header fields, if there
/// are any, join the arguments before the input.
pub open spec fn with_headers(settings: FFmpegModel, text: Seq<char>) -> FFmpegModel {
    if text.len() == 0 {
        settings
    } else {
        FFmpegModel { in_args: settings.in_args.push("-headers"@).push(text), ..settings }
    }
}

/// The arguments with which the decoder plays what a document of the helper
/// program describes.
pub open spec fn found_args(settings: FFmpegModel, document: JsonModel) -> Seq<Seq<char>> {
    decoder_args(
        with_headers(
            settings,
            header_text(in_order(header_fields(member(document, "http_headers"@)))),
        ),
        text_in(member(document, "url"@))->0,
    )
}

/// Whether the header fields in the output of the helper program can be listed
/// in order, and are.
pub open spec fn lists_headers(output: Seq<u8>) -> bool {
    lists_in_order(header_fields(member(parsed_json(output)->0, "http_headers"@)))
}

/// A source on its way to being played.
pub struct PlayTask {
    ffmpeg: Option<FFmpeg>,
    url: String,
    slot: usize,
}

impl PlayTask {
    /// The settings of the decoder, if the task has it.
    pub closed spec fn settings(&self) -> Option<FFmpegModel> {
        settings_of(self.ffmpeg)
    }

    /// What to play.
    pub closed spec fn url(&self) -> Seq<char> {
        self.url@
    }

    pub closed spec fn spec_slot(&self) -> usize {
        self.slot
    }

    /// The slot to play in.
    pub fn slot(&self) -> (slot: usize)
        ensures
            slot == self.spec_slot(),
    {
        self.slot
    }

    /// The arguments with which the helper program looks up the source, if it
    /// has to be looked up.
    pub fn lookup(&self) -> (args: Option<Vec<String>>)
        ensures
            args is Some <==> is_remote(self.url()),
            args matches Some(args) ==> texts(args@) == lookup_texts(self.url()),
    {
        if needs_lookup(self.url.as_str()) {
            Some(lookup_args(self.url.as_str()))
        } else {
            None
        }
    }

    /// The arguments with which the decoder plays what was found, or the
    /// source as it was given when nothing was looked up. `None` without a
    /// decoder.
    pub fn command_for(self, found: Option<Source>) -> (args: Option<Vec<String>>)
        ensures
            args is Some <==> self.settings() is Some,
            args matches Some(args) ==> texts(args@) == match found {
                Some(source) => decoder_args(
                    with_headers(self.settings()->0, header_text(source.headers.fields())),
                    source.url@,
                ),
                None => decoder_args(self.settings()->0, self.url()),
            },
    {
        match self.ffmpeg {
            Some(ffmpeg) => {
                let mut ffmpeg: FFmpeg = ffmpeg;
                match found {
                    Some(source) => {
                        let headers: String = source.headers.render();
                        if !headers.as_str().is_empty() {
                            ffmpeg.in_arg("-headers");
                            ffmpeg.in_arg(headers.as_str());
                        }
                        Some(ffmpeg.start(source.url.as_str()))
                    },
                    None => Some(ffmpeg.start(self.url.as_str())),
                }
            },
            None => None,
        }
    }

    /// The arguments with which the decoder plays the source, given the output
    /// of the helper program where it was started. `None` without a decoder,
    /// and when the output describes nothing to play.
    pub fn command(self, output: Option<&[u8]>) -> (args: Option<Vec<String>>)
        ensures
            args is Some <==> self.settings() is Some && (output matches Some(output)
                ==> output_is_playable(output@)),
            args matches Some(args) ==> texts(args@) == match output {
                Some(output) => found_args(self.settings()->0, parsed_json(output@)->0),
                None => decoder_args(self.settings()->0, self.url()),
            },
            output matches Some(output) ==> output_is_playable(output@) ==> lists_headers(output@),
    {
        match output {
            Some(output) => {
                match resolve(output) {
                    Some(source) => {
                        proof {
                            law_sorted_is_in_order(source.headers.fields());
                        }
                        self.command_for(Some(source))
                    },
                    None => None,
                }
            },
            None => self.command_for(None),
        }
    }
}

/// After playing as a client whose index names a slot, the player gives that
/// index back.
pub proof fn law_client_index_reads_back(handle: AudioPlayerHandle, client: int, count: nat)
    requires
        crate::extension::names_slot(client, count),
        count <= i32::MAX,
        handle.spec_slot() == Some((client - 1) as usize),
    ensures
        0 <= client - 1 < count,
        index_of(handle.spec_slot()) == client,
{
}

/// Header text, if there is any, becomes the last two arguments before the
/// input, and nothing else changes.
pub proof fn law_headers_join_the_input_arguments(settings: FFmpegModel, text: Seq<char>)
    ensures
        text.len() == 0 ==> with_headers(settings, text) == settings,
        text.len() > 0 ==> {
            let after = with_headers(settings, text);
            &&& after.in_args.len() == settings.in_args.len() + 2
            &&& after.in_args.take(settings.in_args.len() as int) == settings.in_args
            &&& after.in_args[settings.in_args.len() as int] == "-headers"@
            &&& after.in_args[(settings.in_args.len() + 1) as int] == text
            &&& after.args == settings.args
            &&& after.ss == settings.ss
        },
{
    if text.len() > 0 {
        assert(with_headers(settings, text).in_args.take(settings.in_args.len() as int)
            =~= settings.in_args);
    }
}

/// What was found is played from the address that the document gives, with the
/// header fields that it gives, in order, in front of the address. The settings
/// of the plugin stay where they are.
pub proof fn law_found_source_is_played(
    settings: FFmpegModel,
    members: Map<Seq<char>, JsonModel>,
    url: Seq<char>,
    fields: Seq<crate::headers::FieldModel>,
    i: int,
)
    requires
        members.dom().contains("url"@),
        members["url"@] == JsonModel::Text(url),
        members.dom().contains("http_headers"@),
        crate::headers::sorted(fields),
        crate::headers::fields_map(fields) == header_fields(members["http_headers"@]),
    ensures
        ({
            let command = found_args(settings, JsonModel::Object(members));
            let n = settings.in_args.len() as int;
            let extra: int = if fields.len() == 0 { 0 } else { 2 };
            &&& command.len() == n + extra + settings.args.len() + 13
            &&& 0 <= i < n ==> command[i] == settings.in_args[i]
            &&& fields.len() > 0 ==> command[n] == "-headers"@ && command[n + 1] == header_text(
                fields,
            )
            &&& command[n + extra] == "-i"@
            &&& command[n + extra + 1] == url
            &&& 0 <= i < settings.args.len() ==> command[n + extra + 2 + i] == settings.args[i]
            &&& command[n + extra + 3 + settings.args.len()] == settings.ss
        }),
{
    law_sorted_is_in_order(fields);
    reveal_strlit(": ");
    assert(in_order(header_fields(members["http_headers"@])) == fields);
    let text = header_text(fields);
    if fields.len() > 0 {
        assert(text == header_text(fields.drop_last()) + crate::headers::field_line(fields.last()));
        assert(text.len() > 0);
    }
    let after = with_headers(settings, text);
    assert(found_args(settings, JsonModel::Object(members)) == decoder_args(after, url));
    crate::ffmpeg::law_every_argument_is_passed_on(after, url, i);
    if 0 <= i < settings.in_args.len() {
        assert(after.in_args[i] == settings.in_args[i]);
    }
    if fields.len() > 0 {
        let n = settings.in_args.len() as int;
        crate::ffmpeg::law_every_argument_is_passed_on(after, url, n);
        crate::ffmpeg::law_every_argument_is_passed_on(after, url, n + 1);
    }
}

/// The client of a slot counts from one, and there is none without a slot.
pub proof fn law_clients_count_from_one(slot: usize)
    requires
        slot < i32::MAX,
    ensures
        index_of(Some(slot)) == slot + 1,
        index_of(None) == 0,
{
}

/// The settings of a decoder are those of the decoder, and there are none
/// without one.
pub proof fn law_settings_are_the_decoders(ffmpeg: FFmpeg)
    ensures
        settings_of(Some(ffmpeg)) == Some(ffmpeg@),
        settings_of(None) is None,
{
}

/// Listed header fields are those that the output gives, sorted by name.
pub proof fn law_listed_headers_are_those_given(
    output: Seq<u8>,
    members: Map<Seq<char>, JsonModel>,
)
    requires
        lists_headers(output),
        parsed_json(output) == Some(JsonModel::Object(members)),
        members.dom().contains("http_headers"@),
    ensures
        ({
            let fields = in_order(header_fields(members["http_headers"@]));
            &&& crate::headers::sorted(fields)
            &&& crate::headers::fields_map(fields) == header_fields(members["http_headers"@])
        }),
{
}

} // verus!
