//! The command line of the decoder.
use crate::source::texts;
use vstd::prelude::*;

verus! {

/// The settings of the decoder that were made so far.
#[verifier::ext_equal]
pub struct FFmpegModel {
    /// The arguments that go before the input.
    pub in_args: Seq<Seq<char>>,
    /// The arguments that go behind the input.
    pub args: Seq<Seq<char>>,
    /// Where to start, in seconds.
    pub ss: Seq<char>,
}

/// The arguments behind which the caller's own come to an end: the position to
/// start from, and raw mono samples of sixteen bits on the standard output.
pub open spec fn output_args(ss: Seq<char>) -> Seq<Seq<char>> {
    seq![
        "-ss"@,
        ss,
        "-acodec"@,
        "pcm_s16le"@,
        "-ac"@,
        "1"@,
        "-ar"@,
        crate::text::decimal_text(crate::pace::SAMPLERATE as nat),
        "-f"@,
        "s16le"@,
        "-"@,
    ]
}

/// The arguments with which the decoder plays `uri`.
pub open spec fn decoder_args(settings: FFmpegModel, uri: Seq<char>) -> Seq<Seq<char>> {
    settings.in_args + seq!["-i"@, uri] + settings.args + output_args(settings.ss)
}

/// The decoder, before it is started.
pub struct FFmpeg {
    in_args: Vec<String>,
    args: Vec<String>,
    ss: String,
}

impl View for FFmpeg {
    type V = FFmpegModel;

    closed spec fn view(&self) -> FFmpegModel {
        FFmpegModel { in_args: texts(self.in_args@), args: texts(self.args@), ss: self.ss@ }
    }
}

impl FFmpeg {
    /// A decoder that starts at the beginning.
    pub fn new() -> (ffmpeg: FFmpeg)
        ensures
            ffmpeg@ == (FFmpegModel { in_args: Seq::empty(), args: Seq::empty(), ss: "0"@ }),
    {
        let ffmpeg = FFmpeg { in_args: Vec::new(), args: Vec::new(), ss: "0".to_owned() };
        assert(ffmpeg@ =~= FFmpegModel {
            in_args: Seq::empty(),
            args: Seq::empty(),
            ss: "0"@,
        });
        ffmpeg
    }

    /// Adds an argument before the input.
    pub fn in_arg(&mut self, arg: &str)
        ensures
            final(self)@ == (FFmpegModel { in_args: old(self)@.in_args.push(arg@), ..old(self)@ }),
    {
        self.in_args.push(arg.to_owned());
        assert(texts(self.in_args@) =~= old(self)@.in_args.push(arg@));
    }

    /// Adds an argument behind the input.
    pub fn arg(&mut self, arg: &str)
        ensures
            final(self)@ == (FFmpegModel { args: old(self)@.args.push(arg@), ..old(self)@ }),
    {
        self.args.push(arg.to_owned());
        assert(texts(self.args@) =~= old(self)@.args.push(arg@));
    }

    /// Sets the position to start from, in seconds.
    pub fn ss(&mut self, seconds: &str)
        ensures
            final(self)@ == (FFmpegModel { ss: seconds@, ..old(self)@ }),
    {
        self.ss = seconds.to_owned();
    }

    /// The arguments with which to start the decoder on `uri`.
    pub fn start(self, uri: &str) -> (args: Vec<String>)
        ensures
            texts(args@) == decoder_args(self@, uri@),
    {
        let ghost settings = self@;
        let mut before: Vec<String> = self.in_args;
        let mut behind: Vec<String> = self.args;
        let mut command: Vec<String> = Vec::new();
        command.append(&mut before);
        command.push("-i".to_owned());
        command.push(uri.to_owned());
        command.append(&mut behind);
        let ghost input = settings.in_args + seq!["-i"@, uri@] + settings.args;
        assert(texts(command@) =~= input);
        command.push("-ss".to_owned());
        command.push(self.ss);
        command.push("-acodec".to_owned());
        command.push("pcm_s16le".to_owned());
        command.push("-ac".to_owned());
        command.push("1".to_owned());
        command.push("-ar".to_owned());
        command.push(crate::text::decimal(crate::pace::SAMPLERATE as u64));
        command.push("-f".to_owned());
        command.push("s16le".to_owned());
        command.push("-".to_owned());
        assert(texts(command@) =~= input + output_args(settings.ss));
        command
    }
}

/// Every argument that was added is in the command, once and in the order of
/// adding: those for the input first, then the input, then the others. Behind
/// them stand the position to start from and the format of the output.
pub proof fn law_every_argument_is_passed_on(settings: FFmpegModel, uri: Seq<char>, i: int)
    ensures
        ({
            let command = decoder_args(settings, uri);
            let input = settings.in_args.len() as int;
            let output = input + 2 + settings.args.len();
            &&& command.len() == settings.in_args.len() + settings.args.len() + 13
            &&& 0 <= i < settings.in_args.len() ==> command[i] == settings.in_args[i]
            &&& command[input] == "-i"@
            &&& command[input + 1] == uri
            &&& 0 <= i < settings.args.len() ==> command[input + 2 + i] == settings.args[i]
            &&& command[output] == "-ss"@
            &&& command[output + 1] == settings.ss
            &&& command[output + 2] == "-acodec"@
            &&& command[output + 3] == "pcm_s16le"@
            &&& command[output + 4] == "-ac"@
            &&& command[output + 5] == "1"@
            &&& command[output + 6] == "-ar"@
            &&& command[output + 7] == "22050"@
            &&& command[output + 8] == "-f"@
            &&& command[output + 9] == "s16le"@
            &&& command[output + 10] == "-"@
        }),
{
    reveal_with_fuel(crate::text::decimal_text, 5);
    reveal_strlit("22050");
    reveal_strlit("2");
    reveal_strlit("0");
    reveal_strlit("5");
    assert(crate::text::decimal_text(22050) =~= "22050"@);
}

/// Adding an argument puts it where it was added, right before or right behind
/// the input and the arguments added so far, and changes nothing else of the
/// command.
pub proof fn law_added_argument_goes_last(settings: FFmpegModel, uri: Seq<char>, arg: Seq<char>)
    ensures
        ({
            let command = decoder_args(settings, uri);
            let before = FFmpegModel { in_args: settings.in_args.push(arg), ..settings };
            let behind = FFmpegModel { args: settings.args.push(arg), ..settings };
            &&& decoder_args(before, uri) == command.insert(settings.in_args.len() as int, arg)
            &&& decoder_args(behind, uri) == command.insert(
                (settings.in_args.len() + 2 + settings.args.len()) as int,
                arg,
            )
        }),
{
    let command = decoder_args(settings, uri);
    let before = FFmpegModel { in_args: settings.in_args.push(arg), ..settings };
    let behind = FFmpegModel { args: settings.args.push(arg), ..settings };
    assert(decoder_args(before, uri) =~= command.insert(settings.in_args.len() as int, arg));
    assert(decoder_args(behind, uri) =~= command.insert(
        (settings.in_args.len() + 2 + settings.args.len()) as int,
        arg,
    ));
}

} // verus!
