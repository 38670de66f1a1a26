//! The argument model: the process's argument vector, read left to right,
//! becomes a sequence of typed commands.

use vstd::prelude::*;
use crate::text::{all_digits, has_prefix, is_digits, parse_i64, signed_number, starts_with, str_eq};

verus! {

/// One command of an invocation.
#[derive(Debug, Clone, PartialEq, Eq)]
pub enum Command {
    /// Play this target: a URL or a local path.
    Link(String),
    /// Jump to this percentage of the current entry.
    Seek(i64),
    /// Set the volume; the player receives the value clamped to `[0, 100]`.
    Volume(i64),
    Help,
    Kill,
    Next,
    Prev,
    Toggle,
    LoopPlaylist,
    LoopSingle,
    Random,
    Download,
    Print,
    Running,
    PrintVolume,
    Percentage,
    GetLink,
    /// Save the current entry's thumbnail at this path.
    Thumbnail(String),
    /// A token that names no command: a bare number, an unknown flag, a
    /// target of no accepted shape, or a flag that lacks its value.
    Unrecognized(String),
}

/// The volume used when `-v` comes without a readable number.
pub const DEFAULT_VOLUME: i64 = 50;

/// The position used when `-s` comes without a readable number.
pub const DEFAULT_SEEK: i64 = 0;

/// The flags that take no value, and the command each one names.
pub open spec fn flag_command(t: Seq<char>) -> Option<Command> {
    if t == "-h"@ || t == "--help"@ {
        Some(Command::Help)
    } else if t == "-k"@ || t == "--kill"@ {
        Some(Command::Kill)
    } else if t == "-n"@ || t == "--next"@ {
        Some(Command::Next)
    } else if t == "-p"@ || t == "--prev"@ {
        Some(Command::Prev)
    } else if t == "-t"@ || t == "--toogle"@ || t == "--toggle"@ {
        Some(Command::Toggle)
    } else if t == "--loop-playlist"@ || t == "--loop_playlist"@ {
        Some(Command::LoopPlaylist)
    } else if t == "--loop-single"@ || t == "--loop"@ {
        Some(Command::LoopSingle)
    } else if t == "-r"@ || t == "--rand"@ {
        Some(Command::Random)
    } else if t == "--downland"@ || t == "--download"@ {
        Some(Command::Download)
    } else if t == "--print"@ {
        Some(Command::Print)
    } else if t == "--runnig"@ || t == "--running"@ {
        Some(Command::Running)
    } else if t == "--p-volume"@ {
        Some(Command::PrintVolume)
    } else if t == "--percentage"@ {
        Some(Command::Percentage)
    } else if t == "--get-link"@ {
        Some(Command::GetLink)
    } else {
        None
    }
}

/// The seek flag, whose value is a number.
pub open spec fn is_seek_flag(t: Seq<char>) -> bool {
    t == "-s"@ || t == "--seek"@ || t == "-seek"@
}

/// The volume flag, whose value is a number.
pub open spec fn is_volume_flag(t: Seq<char>) -> bool {
    t == "-v"@ || t == "--volume"@
}

/// The link flag, whose value is a target.
pub open spec fn is_link_flag(t: Seq<char>) -> bool {
    t == "-l"@ || t == "--link"@
}

/// The thumbnail flag, whose value is a path.
pub open spec fn is_thumbnail_flag(t: Seq<char>) -> bool {
    t == "--thumbnail"@
}

/// A flag that reads the token after it when that token fits.
pub open spec fn takes_value(t: Seq<char>) -> bool {
    is_seek_flag(t) || is_volume_flag(t) || is_link_flag(t) || is_thumbnail_flag(t)
}

/// The accepted shapes of a target: a web address, or a local path that
/// is absolute, relative to the working directory, or under the home
/// directory.
pub open spec fn is_target_shape(t: Seq<char>) -> bool {
    has_prefix(t, "https://"@) || has_prefix(t, "http://"@) || has_prefix(t, "/"@)
        || has_prefix(t, "./"@) || has_prefix(t, "../"@) || has_prefix(t, "~/"@)
}

/// A token that may stand as the value of the link or thumbnail flag.
pub open spec fn is_text_value(t: Seq<char>) -> bool {
    !has_prefix(t, "-"@)
}

/// The command that a token names on its own, when it is not a flag that
/// takes a value.
pub open spec fn classify(tok: String) -> Command {
    if all_digits(tok@) {
        Command::Unrecognized(tok)
    } else {
        match flag_command(tok@) {
            Some(c) => c,
            None => if is_target_shape(tok@) {
                Command::Link(tok)
            } else {
                Command::Unrecognized(tok)
            },
        }
    }
}

/// The commands that `toks` spell, read from the left. A bare number is
/// never a flag nor a target. A seek or volume
/// flag takes the next token when it reads as a number, and its default
/// otherwise; a link or thumbnail flag takes the next token when there is
/// one and it does not begin with `-`, and is unrecognized otherwise.
pub open spec fn parse_tokens(toks: Seq<String>) -> Seq<Command>
    decreases toks.len(),
{
    if toks.len() == 0 {
        Seq::<Command>::empty()
    } else {
        let t = toks[0]@;
        let rest = toks.drop_first();
        if all_digits(t) {
            seq![Command::Unrecognized(toks[0])] + parse_tokens(rest)
        } else if is_seek_flag(t) || is_volume_flag(t) {
            let value = if rest.len() > 0 {
                signed_number(rest[0]@)
            } else {
                None
            };
            let n = match value {
                Some(v) => v,
                None => if is_seek_flag(t) {
                    DEFAULT_SEEK as int
                } else {
                    DEFAULT_VOLUME as int
                },
            };
            let c = if is_seek_flag(t) {
                Command::Seek(n as i64)
            } else {
                Command::Volume(n as i64)
            };
            if value is Some {
                seq![c] + parse_tokens(rest.drop_first())
            } else {
                seq![c] + parse_tokens(rest)
            }
        } else if is_link_flag(t) || is_thumbnail_flag(t) {
            if rest.len() > 0 && is_text_value(rest[0]@) {
                let c = if is_link_flag(t) {
                    Command::Link(rest[0])
                } else {
                    Command::Thumbnail(rest[0])
                };
                seq![c] + parse_tokens(rest.drop_first())
            } else {
                seq![Command::Unrecognized(toks[0])] + parse_tokens(rest)
            }
        } else {
            seq![classify(toks[0])] + parse_tokens(rest)
        }
    }
}

/// The flag `t` takes the token `next` after it as its value: a seek or
/// volume flag takes a number, a link or thumbnail flag takes a token that
/// does not begin with `-`.
pub open spec fn takes_as_value(t: Seq<char>, next: Seq<char>) -> bool {
    if all_digits(t) {
        false
    } else if is_seek_flag(t) || is_volume_flag(t) {
        signed_number(next) is Some
    } else if is_link_flag(t) || is_thumbnail_flag(t) {
        is_text_value(next)
    } else {
        false
    }
}

/// The number of tokens that are taken as a flag's value, read from the
/// left: a token taken as a value is not itself read as a flag.
pub open spec fn values_taken(toks: Seq<String>) -> nat
    decreases toks.len(),
{
    if toks.len() < 2 {
        0
    } else if takes_as_value(toks[0]@, toks[1]@) {
        1 + values_taken(toks.drop_first().drop_first())
    } else {
        values_taken(toks.drop_first())
    }
}

/// Parsing never drops or invents tokens: every token gives exactly one
/// command, except a token taken as a flag's value, which goes into its
/// flag's command. So `n` tokens of which `k` are values give `n - k`
/// commands: between `n / 2` and `n`, and none when there are no tokens.
pub proof fn lemma_parse_counts(toks: Seq<String>)
    ensures
        parse_tokens(toks).len() + values_taken(toks) == toks.len(),
        parse_tokens(toks).len() <= toks.len() <= 2 * parse_tokens(toks).len(),
    decreases toks.len(),
{
    if toks.len() > 0 {
        let rest = toks.drop_first();
        lemma_parse_counts(rest);
        if rest.len() > 0 {
            assert(rest[0] == toks[1]);
            lemma_parse_counts(rest.drop_first());
        }
    }
}

/// Where no token is a flag that takes a value, every token maps to
/// exactly one command, in the same position: the one `classify` names.
pub proof fn lemma_parse_token_by_token(toks: Seq<String>)
    requires
        forall|i: int| 0 <= i < toks.len() ==> !takes_value(#[trigger] toks[i]@),
    ensures
        parse_tokens(toks).len() == toks.len(),
        forall|i: int| 0 <= i < toks.len() ==> #[trigger] parse_tokens(toks)[i] == classify(toks[i]),
    decreases toks.len(),
{
    if toks.len() > 0 {
        let rest = toks.drop_first();
        assert forall|i: int| 0 <= i < rest.len() implies !takes_value(#[trigger] rest[i]@) by {
            assert(rest[i] == toks[i + 1]);
        }
        lemma_parse_token_by_token(rest);
        assert(!takes_value(toks[0]@));
        assert forall|i: int| 0 <= i < toks.len() implies #[trigger] parse_tokens(toks)[i]
            == classify(toks[i]) by {
            if i > 0 {
                assert(rest[i - 1] == toks[i]);
            }
        }
    }
}

/// Names the command of a flag that takes no value.
fn flag_of(t: &str) -> (r: Option<Command>)
    ensures
        r == flag_command(t@),
{
    if str_eq(t, "-h") || str_eq(t, "--help") {
        Some(Command::Help)
    } else if str_eq(t, "-k") || str_eq(t, "--kill") {
        Some(Command::Kill)
    } else if str_eq(t, "-n") || str_eq(t, "--next") {
        Some(Command::Next)
    } else if str_eq(t, "-p") || str_eq(t, "--prev") {
        Some(Command::Prev)
    } else if str_eq(t, "-t") || str_eq(t, "--toogle") || str_eq(t, "--toggle") {
        Some(Command::Toggle)
    } else if str_eq(t, "--loop-playlist") || str_eq(t, "--loop_playlist") {
        Some(Command::LoopPlaylist)
    } else if str_eq(t, "--loop-single") || str_eq(t, "--loop") {
        Some(Command::LoopSingle)
    } else if str_eq(t, "-r") || str_eq(t, "--rand") {
        Some(Command::Random)
    } else if str_eq(t, "--downland") || str_eq(t, "--download") {
        Some(Command::Download)
    } else if str_eq(t, "--print") {
        Some(Command::Print)
    } else if str_eq(t, "--runnig") || str_eq(t, "--running") {
        Some(Command::Running)
    } else if str_eq(t, "--p-volume") {
        Some(Command::PrintVolume)
    } else if str_eq(t, "--percentage") {
        Some(Command::Percentage)
    } else if str_eq(t, "--get-link") {
        Some(Command::GetLink)
    } else {
        None
    }
}

/// Tells whether a token has one of the accepted target shapes.
pub fn target_shape(t: &str) -> (r: bool)
    ensures
        r == is_target_shape(t@),
{
    starts_with(t, "https://") || starts_with(t, "http://") || starts_with(t, "/")
        || starts_with(t, "./") || starts_with(t, "../") || starts_with(t, "~/")
}

/// The command that a token names on its own.
pub fn classify_token(tok: &String) -> (r: Command)
    ensures
        r == classify(*tok),
{
    if is_digits(tok.as_str()) {
        Command::Unrecognized(tok.clone())
    } else {
        match flag_of(tok.as_str()) {
            Some(c) => c,
            None => if target_shape(tok.as_str()) {
                Command::Link(tok.clone())
            } else {
                Command::Unrecognized(tok.clone())
            },
        }
    }
}

/// A parsed invocation: its commands in argument order.
#[derive(Debug, Clone, PartialEq, Eq)]
pub struct Args {
    pub commands: Vec<Command>,
}

impl Args {
    /// Reads the argument vector (without the program name) into commands.
    /// Every vector is accepted; what names no command becomes
    /// `Unrecognized`.
    pub fn parse(toks: &Vec<String>) -> (r: Args)
        ensures
            r.commands@ == parse_tokens(toks@),
    {
        let n = toks.len();
        let mut out: Vec<Command> = Vec::new();
        let mut i: usize = 0;
        assert(toks@.skip(0) =~= toks@);
        while i < n
            invariant
                n == toks@.len(),
                i <= n,
                parse_tokens(toks@) == out@ + parse_tokens(toks@.skip(i as int)),
            decreases n - i,
        {
            let ghost rest = toks@.skip(i as int);
            let ghost before = out@;
            assert(rest[0] == toks@[i as int]);
            assert(rest.drop_first() =~= toks@.skip(i + 1));
            let t = toks[i].as_str();
            let digits = is_digits(t);
            let is_seek = str_eq(t, "-s") || str_eq(t, "--seek") || str_eq(t, "-seek");
            let is_volume = str_eq(t, "-v") || str_eq(t, "--volume");
            let is_link = str_eq(t, "-l") || str_eq(t, "--link");
            let is_thumb = str_eq(t, "--thumbnail");
            if digits {
                out.push(Command::Unrecognized(toks[i].clone()));
                i = i + 1;
            } else if is_seek || is_volume {
                let value = if i + 1 < n {
                    parse_i64(toks[i + 1].as_str())
                } else {
                    None
                };
                let consumed = value.is_some();
                let v = match value {
                    Some(v) => v,
                    None => if is_seek {
                        DEFAULT_SEEK
                    } else {
                        DEFAULT_VOLUME
                    },
                };
                if is_seek {
                    out.push(Command::Seek(v));
                } else {
                    out.push(Command::Volume(v));
                }
                if consumed {
                    assert(rest.drop_first()[0] == toks@[i + 1]);
                    assert(rest.drop_first().drop_first() =~= toks@.skip(i + 2));
                    i = i + 2;
                } else {
                    i = i + 1;
                }
            } else if is_link || is_thumb {
                if i + 1 < n && !starts_with(toks[i + 1].as_str(), "-") {
                    let value = toks[i + 1].clone();
                    if is_link {
                        out.push(Command::Link(value));
                    } else {
                        out.push(Command::Thumbnail(value));
                    }
                    assert(rest.drop_first()[0] == toks@[i + 1]);
                    assert(rest.drop_first().drop_first() =~= toks@.skip(i + 2));
                    i = i + 2;
                } else {
                    out.push(Command::Unrecognized(toks[i].clone()));
                    i = i + 1;
                }
            } else {
                out.push(classify_token(&toks[i]));
                i = i + 1;
            }
            assert(out@ + parse_tokens(toks@.skip(i as int)) =~= before + parse_tokens(rest));
        }
        assert(toks@.skip(n as int) =~= Seq::<String>::empty());
        assert(out@ + Seq::<Command>::empty() =~= out@);
        Args { commands: out }
    }
}

} // verus!
