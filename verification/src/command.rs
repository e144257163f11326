//! Control commands: what the control program sends and the daemon reads, and
//! the socket that carries it.

use vstd::prelude::*;
use vstd::slice::slice_to_vec;
use vstd::string::{StrSliceExecFns, StringExecFns};
use vstd::utf8::{decode_utf8, encode_utf8, valid_utf8};

verus! {

broadcast use vstd::string::group_string_axioms;

/// A request to the daemon.
#[derive(Clone, Copy, Debug, PartialEq, Eq, Structural)]
pub enum Command {
    /// Zoom in one step.
    In,
    /// Zoom out one step.
    Out,
    /// Close the magnifier.
    Reset,
}

/// The most bytes of a request that the daemon reads.
pub const REQUEST_LIMIT: usize = 64;

/// The word for a command.
pub open spec fn word_of(command: Command) -> Seq<char> {
    match command {
        Command::In => "in"@,
        Command::Out => "out"@,
        Command::Reset => "reset"@,
    }
}

/// The command that a word stands for.
pub open spec fn command_of(word: Seq<char>) -> Option<Command> {
    if word == "in"@ {
        Some(Command::In)
    } else if word == "out"@ {
        Some(Command::Out)
    } else if word == "reset"@ {
        Some(Command::Reset)
    } else {
        None
    }
}

/// The characters with the Unicode property `White_Space`.
pub open spec fn is_white_space(c: char) -> bool {
    let u = c as u32;
    ||| 0x9 <= u <= 0xd
    ||| u == 0x20
    ||| u == 0x85
    ||| u == 0xa0
    ||| u == 0x1680
    ||| 0x2000 <= u <= 0x200a
    ||| u == 0x2028
    ||| u == 0x2029
    ||| u == 0x202f
    ||| u == 0x205f
    ||| u == 0x3000
}

/// `s` without its leading white space.
pub open spec fn trimmed_start(s: Seq<char>) -> Seq<char>
    decreases s.len(),
{
    if s.len() > 0 && is_white_space(s[0]) {
        trimmed_start(s.skip(1))
    } else {
        s
    }
}

/// `s` without its trailing white space.
pub open spec fn trimmed_end(s: Seq<char>) -> Seq<char>
    decreases s.len(),
{
    if s.len() > 0 && is_white_space(s.last()) {
        trimmed_end(s.drop_last())
    } else {
        s
    }
}

/// `s` without the white space at its ends.
pub open spec fn trimmed(s: Seq<char>) -> Seq<char> {
    trimmed_end(trimmed_start(s))
}

/// The command in the bytes of a request: the bytes are UTF-8 and spell the
/// command's word, with any white space round it.
pub open spec fn command_in(bytes: Seq<u8>) -> Option<Command> {
    if valid_utf8(bytes) {
        command_of(trimmed(decode_utf8(bytes)))
    } else {
        None
    }
}

/// The bytes that ask for a command: its word and a line feed.
pub open spec fn request_bytes(command: Command) -> Seq<u8> {
    encode_utf8(word_of(command) + "\n"@)
}

/// What [`String::from_utf8_lossy`] makes of `bytes`.
pub uninterp spec fn lossy_text(bytes: Seq<u8>) -> Seq<char>;

/// Calls [`String::from_utf8_lossy`]. Claimed of it: the text depends on the
/// bytes alone, UTF-8 is decoded as it stands, and whatever is not UTF-8
/// leaves a replacement character in the text.
#[verifier::external_body]
fn decode_lossy(bytes: &[u8]) -> (text: String)
    ensures
        text@ == lossy_text(bytes@),
        valid_utf8(bytes@) ==> text@ == decode_utf8(bytes@),
        !valid_utf8(bytes@) ==> text@.contains('\u{fffd}'),
{
    String::from_utf8_lossy(bytes).into_owned()
}

/// Calls [`str::trim`]. Claimed of it: it takes off the leading and trailing
/// characters that have the Unicode property `White_Space`, and nothing else.
#[verifier::external_body]
fn trim(text: &str) -> (rest: &str)
    ensures
        rest@ == trimmed(text@),
{
    text.trim()
}

impl Command {
    /// The word for this command.
    pub fn word(self) -> (word: &'static str)
        ensures
            word@ == word_of(self),
    {
        match self {
            Command::In => "in",
            Command::Out => "out",
            Command::Reset => "reset",
        }
    }
}

/// The command that a word stands for, if any. The word has to match exactly.
pub fn parse_word(word: &str) -> (command: Option<Command>)
    ensures
        command == command_of(word@),
{
    let word: String = word.to_owned();
    if word == Command::In.word().to_owned() {
        Some(Command::In)
    } else if word == Command::Out.word().to_owned() {
        Some(Command::Out)
    } else if word == Command::Reset.word().to_owned() {
        Some(Command::Reset)
    } else {
        None
    }
}

/// The command that the first argument of the control program asks for.
pub fn parse_argument(argument: Option<&str>) -> (command: Option<Command>)
    ensures
        command == match argument {
            Some(word) => command_of(word@),
            None => None,
        },
{
    match argument {
        Some(word) => parse_word(word),
        None => None,
    }
}

/// The command in the text of a request. A text that holds none comes back
/// without the white space at its ends.
pub fn parse_text(text: &str) -> (command: Result<Command, String>)
    ensures
        match command {
            Ok(c) => command_of(trimmed(text@)) == Some(c),
            Err(rest) => command_of(trimmed(text@)) is None && rest@ == trimmed(text@),
        },
{
    let word = trim(text);
    match parse_word(word) {
        Some(command) => Ok(command),
        None => Err(word.to_owned()),
    }
}

/// The command in the bytes of a request. Bytes that hold none come back as
/// text, for the log.
pub fn parse_request(bytes: &[u8]) -> (command: Result<Command, String>)
    ensures
        match command {
            Ok(c) => command_in(bytes@) == Some(c),
            Err(rest) => command_in(bytes@) is None && rest@ == trimmed(lossy_text(bytes@)),
        },
{
    let text = decode_lossy(bytes);
    proof {
        if !valid_utf8(bytes@) {
            lemma_trimmed_keeps(text@, '\u{fffd}');
            lemma_words_are_ascii(trimmed(text@));
        }
    }
    parse_text(text.as_str())
}

/// The bytes that ask the daemon for a command.
pub fn request_line(command: Command) -> (bytes: Vec<u8>)
    ensures
        bytes@ == request_bytes(command),
{
    let mut line: String = command.word().to_owned();
    line.append("\n");
    slice_to_vec(line.as_str().as_bytes())
}

/// The name of the control socket.
pub open spec fn socket_name() -> Seq<char> {
    "niri-zoomd.sock"@
}

/// The path of the entry `name` in the directory `dir`: the two with a slash
/// between them, unless `dir` is empty or ends in one.
pub open spec fn entry_path(dir: Seq<char>, name: Seq<char>) -> Seq<char> {
    if dir.len() == 0 || dir.last() == '/' {
        dir + name
    } else {
        dir + "/"@ + name
    }
}

/// The path of the control socket: in the runtime directory where there is
/// one, else in `/tmp`.
pub fn socket_path(runtime_dir: Option<String>) -> (path: String)
    ensures
        path@ == match runtime_dir {
            Some(dir) => entry_path(dir@, socket_name()),
            None => entry_path("/tmp"@, socket_name()),
        },
{
    let mut path: String = match runtime_dir {
        Some(dir) => dir,
        None => "/tmp".to_owned(),
    };
    let len: usize = path.as_str().unicode_len();
    if len > 0 && path.as_str().get_char(len - 1) != '/' {
        path.append("/");
    }
    path.append("niri-zoomd.sock");
    path
}

/// Trimming takes off white space only.
proof fn lemma_trimmed_keeps(s: Seq<char>, c: char)
    requires
        s.contains(c),
        !is_white_space(c),
    ensures
        trimmed(s).contains(c),
{
    lemma_trimmed_start_keeps(s, c);
    lemma_trimmed_end_keeps(trimmed_start(s), c);
}

proof fn lemma_trimmed_start_keeps(s: Seq<char>, c: char)
    requires
        s.contains(c),
        !is_white_space(c),
    ensures
        trimmed_start(s).contains(c),
    decreases s.len(),
{
    if s.len() > 0 && is_white_space(s[0]) {
        let i = s.index_of(c);
        assert(s.skip(1)[i - 1] == c);
        lemma_trimmed_start_keeps(s.skip(1), c);
    }
}

proof fn lemma_trimmed_end_keeps(s: Seq<char>, c: char)
    requires
        s.contains(c),
        !is_white_space(c),
    ensures
        trimmed_end(s).contains(c),
    decreases s.len(),
{
    if s.len() > 0 && is_white_space(s.last()) {
        let i = s.index_of(c);
        assert(s.drop_last()[i] == c);
        lemma_trimmed_end_keeps(s.drop_last(), c);
    }
}

proof fn lemma_words_are_ascii(word: Seq<char>)
    requires
        word.contains('\u{fffd}'),
    ensures
        command_of(word) is None,
{
    reveal_strlit("in");
    reveal_strlit("out");
    reveal_strlit("reset");
    let i = word.index_of('\u{fffd}');
    assert(word[i] == '\u{fffd}');
}

proof fn lemma_trimmed_start_of_padded(before: Seq<char>, rest: Seq<char>)
    requires
        forall|i: int| 0 <= i < before.len() ==> is_white_space(#[trigger] before[i]),
        rest.len() > 0,
        !is_white_space(rest[0]),
    ensures
        trimmed_start(before + rest) == rest,
    decreases before.len(),
{
    if before.len() == 0 {
        assert(before + rest == rest);
    } else {
        assert((before + rest)[0] == before[0]);
        assert((before + rest).skip(1) == before.skip(1) + rest);
        lemma_trimmed_start_of_padded(before.skip(1), rest);
    }
}

proof fn lemma_trimmed_end_of_padded(rest: Seq<char>, after: Seq<char>)
    requires
        forall|i: int| 0 <= i < after.len() ==> is_white_space(#[trigger] after[i]),
        rest.len() > 0,
        !is_white_space(rest.last()),
    ensures
        trimmed_end(rest + after) == rest,
    decreases after.len(),
{
    if after.len() == 0 {
        assert(rest + after == rest);
    } else {
        assert((rest + after).last() == after.last());
        assert((rest + after).drop_last() == rest + after.drop_last());
        lemma_trimmed_end_of_padded(rest, after.drop_last());
    }
}

/// The words and the commands stand for each other: each command has one word,
/// and no other word is a command.
pub proof fn law_words_and_commands_match(command: Command, word: Seq<char>)
    ensures
        command_of(word) == Some(command) <==> word == word_of(command),
{
    reveal_strlit("in");
    reveal_strlit("out");
    reveal_strlit("reset");
    assert("in"@.len() == 2 && "out"@.len() == 3 && "reset"@.len() == 5);
}

/// White space round a command's word does not matter: the daemon reads the
/// command all the same.
pub proof fn law_white_space_is_ignored(before: Seq<char>, command: Command, after: Seq<char>)
    requires
        forall|i: int| 0 <= i < before.len() ==> is_white_space(#[trigger] before[i]),
        forall|i: int| 0 <= i < after.len() ==> is_white_space(#[trigger] after[i]),
    ensures
        command_in(encode_utf8(before + word_of(command) + after)) == Some(command),
{
    broadcast use {vstd::utf8::encode_utf8_decode_utf8, vstd::utf8::encode_utf8_valid_utf8};

    reveal_strlit("in");
    reveal_strlit("out");
    reveal_strlit("reset");
    let word = word_of(command);
    assert(!is_white_space(word[0]) && !is_white_space(word.last()));
    assert(before + word + after == before + (word + after));
    assert((word + after)[0] == word[0]);
    lemma_trimmed_start_of_padded(before, word + after);
    lemma_trimmed_end_of_padded(word, after);
    law_words_and_commands_match(command, word);
}

/// What the control program sends for a command, the daemon reads as that
/// command.
pub proof fn law_requests_are_read_back(command: Command)
    ensures
        command_in(request_bytes(command)) == Some(command),
{
    reveal_strlit("\n");
    let none = Seq::<char>::empty();
    assert(none + word_of(command) == word_of(command));
    assert("\n"@[0] == '\n');
    law_white_space_is_ignored(none, command, "\n"@);
}

/// The daemon reads the whole of every request that the control program sends,
/// and up to sixty-four bytes of any other.
pub proof fn law_requests_fit_the_limit(command: Command)
    ensures
        request_bytes(command).len() <= REQUEST_LIMIT,
        REQUEST_LIMIT == 64,
        request_bytes(command) == encode_utf8(word_of(command) + seq!['\n']),
{
    reveal_strlit("in");
    reveal_strlit("out");
    reveal_strlit("reset");
    reveal_strlit("\n");
    assert("\n"@ == seq!['\n']);
    vstd::utf8::is_ascii_chars_encode_utf8(word_of(command) + "\n"@);
}

proof fn lemma_trimmed_start_cuts(s: Seq<char>) -> (cut: int)
    ensures
        0 <= cut <= s.len(),
        trimmed_start(s) == s.skip(cut),
        forall|i: int| 0 <= i < cut ==> is_white_space(#[trigger] s[i]),
        cut < s.len() ==> !is_white_space(s[cut]),
    decreases s.len(),
{
    if s.len() > 0 && is_white_space(s[0]) {
        let rest = s.skip(1);
        let cut = lemma_trimmed_start_cuts(rest);
        assert(s.skip(cut + 1) == rest.skip(cut));
        assert forall|i: int| 0 <= i < cut + 1 implies is_white_space(#[trigger] s[i]) by {
            if i > 0 {
                assert(s[i] == rest[i - 1]);
            }
        }
        cut + 1
    } else {
        assert(s.skip(0) == s);
        0
    }
}

proof fn lemma_trimmed_end_cuts(s: Seq<char>) -> (kept: int)
    ensures
        0 <= kept <= s.len(),
        trimmed_end(s) == s.take(kept),
        forall|i: int| kept <= i < s.len() ==> is_white_space(#[trigger] s[i]),
        kept > 0 ==> !is_white_space(s[kept - 1]),
    decreases s.len(),
{
    if s.len() > 0 && is_white_space(s.last()) {
        let rest = s.drop_last();
        let kept = lemma_trimmed_end_cuts(rest);
        assert(s.take(kept) == rest.take(kept));
        assert forall|i: int| kept <= i < s.len() implies is_white_space(#[trigger] s[i]) by {
            if i < rest.len() {
                assert(s[i] == rest[i]);
            }
        }
        kept
    } else {
        assert(s.take(s.len() as int) == s);
        s.len() as int
    }
}

/// A trimmed text is a piece of the text: what was before and after it is white
/// space only, and it neither starts nor ends with white space.
pub proof fn law_trimming_takes_off_white_space_only(s: Seq<char>)
    ensures
        trimmed(s).len() > 0 ==> !is_white_space(trimmed(s)[0]) && !is_white_space(
            trimmed(s).last(),
        ),
        exists|before: Seq<char>, after: Seq<char>|
            {
                &&& s == #[trigger] (before + trimmed(s) + after)
                &&& forall|i: int| 0 <= i < before.len() ==> is_white_space(#[trigger] before[i])
                &&& forall|i: int| 0 <= i < after.len() ==> is_white_space(#[trigger] after[i])
            },
{
    let cut = lemma_trimmed_start_cuts(s);
    let rest = s.skip(cut);
    let kept = lemma_trimmed_end_cuts(rest);
    let before = s.take(cut);
    let after = rest.skip(kept);
    assert(s == before + trimmed(s) + after);
    assert forall|i: int| 0 <= i < after.len() implies is_white_space(#[trigger] after[i]) by {
        assert(after[i] == rest[kept + i]);
    }
    if kept > 0 {
        assert(rest[0] == s[cut]);
    }
}

/// Nothing but a command's word, with white space round it, is read as that
/// command.
pub proof fn law_only_words_are_commands(bytes: Seq<u8>, command: Command)
    requires
        command_in(bytes) == Some(command),
    ensures
        exists|before: Seq<char>, after: Seq<char>|
            {
                &&& bytes == encode_utf8(#[trigger] (before + word_of(command) + after))
                &&& forall|i: int| 0 <= i < before.len() ==> is_white_space(#[trigger] before[i])
                &&& forall|i: int| 0 <= i < after.len() ==> is_white_space(#[trigger] after[i])
            },
{
    broadcast use vstd::utf8::decode_utf8_encode_utf8;

    let text = decode_utf8(bytes);
    law_words_and_commands_match(command, trimmed(text));
    law_trimming_takes_off_white_space_only(text);
}

/// The words are `in`, `out` and `reset`.
pub proof fn law_commands_have_their_words()
    ensures
        word_of(Command::In) == "in"@,
        word_of(Command::Out) == "out"@,
        word_of(Command::Reset) == "reset"@,
        command_of("in"@) == Some(Command::In),
        command_of("out"@) == Some(Command::Out),
        command_of("reset"@) == Some(Command::Reset),
{
    law_words_and_commands_match(Command::In, "in"@);
    law_words_and_commands_match(Command::Out, "out"@);
    law_words_and_commands_match(Command::Reset, "reset"@);
}

/// The socket lies in its directory under the daemon's name: the path starts
/// with the directory, ends with the name, and has one slash before the name
/// unless the directory is empty.
pub proof fn law_the_socket_lies_in_its_directory(dir: Seq<char>)
    ensures
        ({
            let path = entry_path(dir, socket_name());
            let name = "niri-zoomd.sock"@;
            &&& path.len() >= dir.len() + name.len()
            &&& path.take(dir.len() as int) == dir
            &&& path.skip(path.len() - name.len()) == name
            &&& dir.len() == 0 ==> path == name
            &&& dir.len() > 0 ==> path[path.len() - name.len() - 1] == '/'
            &&& dir.len() > 0 && dir.last() == '/' ==> path.len() == dir.len() + name.len()
            &&& dir.len() > 0 && dir.last() != '/' ==> path.len() == dir.len() + 1 + name.len()
        }),
{
    reveal_strlit("/");
    let path = entry_path(dir, socket_name());
    let name = "niri-zoomd.sock"@;
    assert(path.take(dir.len() as int) == dir);
    assert(path.skip(path.len() - name.len()) == name);
    assert(dir.len() == 0 ==> path == name);
}

} // verus!
