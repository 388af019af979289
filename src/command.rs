//! Parses a command line into its verb and argument.
//!
//! The verb is the text before the first space, upper-cased; the argument
//! is what follows that space, with white space trimmed from both ends and
//! its case kept. A verb that is not known, or that comes with an argument
//! it does not take (or without one that it needs), is `Unknown`.

use vstd::prelude::*;
use crate::bytes::{
    bytes_eq, copy_bytes, lemma_split_on_nonempty, split_bytes, split_on, to_upper, trim, trim_seq,
    upper_seq, views,
};

verus! {

/// The space.
pub const SP: u8 = 32;

/// The commands of the protocol.
#[derive(Clone, Copy, Debug, PartialEq, Eq, Structural)]
pub enum Verb {
    User,
    Pass,
    Port,
    Pasv,
    Type,
    Mode,
    Stru,
    Cwd,
    Pwd,
    List,
    Retr,
    Stor,
    Feat,
    Syst,
    Noop,
    OptsUtf8,
    Quit,
    Unknown,
}

/// A parsed command line.
pub struct Command {
    pub verb: Verb,
    pub arg: Vec<u8>,
}

/// The text before the first space.
pub open spec fn verb_token(line: Seq<u8>) -> Seq<u8> {
    split_on(line, SP)[0]
}

/// The text after the first space, trimmed; empty if there is no space.
pub open spec fn arg_text(line: Seq<u8>) -> Seq<u8> {
    let t = verb_token(line);
    if t.len() < line.len() {
        trim_seq(line.skip(t.len() + 1int))
    } else {
        Seq::empty()
    }
}

/// The verb that the upper-cased token `t` names, given the argument `arg`.
pub open spec fn verb_of(t: Seq<u8>, arg: Seq<u8>) -> Verb {
    let has_arg = arg.len() > 0;
    // USER
    if t == seq![85u8, 83, 69, 82] && has_arg {
        Verb::User
    // PASS
    } else if t == seq![80u8, 65, 83, 83] {
        Verb::Pass
    // PORT
    } else if t == seq![80u8, 79, 82, 84] && has_arg {
        Verb::Port
    // PASV
    } else if t == seq![80u8, 65, 83, 86] && !has_arg {
        Verb::Pasv
    // TYPE
    } else if t == seq![84u8, 89, 80, 69] && has_arg {
        Verb::Type
    // MODE
    } else if t == seq![77u8, 79, 68, 69] && has_arg {
        Verb::Mode
    // STRU
    } else if t == seq![83u8, 84, 82, 85] && has_arg {
        Verb::Stru
    // CWD
    } else if t == seq![67u8, 87, 68] && has_arg {
        Verb::Cwd
    // PWD
    } else if t == seq![80u8, 87, 68] && !has_arg {
        Verb::Pwd
    // LIST
    } else if t == seq![76u8, 73, 83, 84] {
        Verb::List
    // RETR
    } else if t == seq![82u8, 69, 84, 82] && has_arg {
        Verb::Retr
    // STOR
    } else if t == seq![83u8, 84, 79, 82] && has_arg {
        Verb::Stor
    // FEAT
    } else if t == seq![70u8, 69, 65, 84] && !has_arg {
        Verb::Feat
    // SYST
    } else if t == seq![83u8, 89, 83, 84] && !has_arg {
        Verb::Syst
    // NOOP
    } else if t == seq![78u8, 79, 79, 80] && !has_arg {
        Verb::Noop
    // OPTS with the argument UTF8 ON
    } else if t == seq![79u8, 80, 84, 83] && upper_seq(arg) == seq![85u8, 84, 70, 56, 32, 79, 78] {
        Verb::OptsUtf8
    // QUIT
    } else if t == seq![81u8, 85, 73, 84] && !has_arg {
        Verb::Quit
    } else {
        Verb::Unknown
    }
}

/// The first piece of a split is a prefix of the string, and the whole of it
/// when there is only one piece.
proof fn lemma_first_piece(s: Seq<u8>, sep: u8)
    ensures
        split_on(s, sep)[0].len() <= s.len(),
        s.take(split_on(s, sep)[0].len() as int) == split_on(s, sep)[0],
        split_on(s, sep).len() == 1 ==> split_on(s, sep)[0] == s,
        split_on(s, sep)[0].len() < s.len() ==> s[split_on(s, sep)[0].len() as int] == sep,
    decreases s.len(),
{
    if s.len() == 0 {
        assert(s.take(0) =~= Seq::<u8>::empty());
    } else {
        let d = s.drop_last();
        lemma_first_piece(d, sep);
        lemma_split_on_nonempty(d, sep);
        let p = split_on(d, sep);
        let q = split_on(s, sep);
        if s.last() == sep {
            assert(q[0] == p[0]);
            assert(s.take(q[0].len() as int) =~= d.take(p[0].len() as int));
            if p[0].len() < d.len() {
                assert(s[p[0].len() as int] == d[p[0].len() as int]);
            }
        } else if p.len() == 1 {
            assert(q[0] == d.push(s.last()));
            assert(q[0] =~= s);
            assert(s.take(s.len() as int) =~= s);
        } else {
            assert(q[0] == p[0]);
            assert(s.take(q[0].len() as int) =~= d.take(p[0].len() as int));
            assert(p[0].len() < d.len()) by {
                if p[0].len() == d.len() {
                    lemma_split_on_count(d, sep);
                }
            }
            assert(s[p[0].len() as int] == d[p[0].len() as int]);
        }
    }
}

/// A string whose first piece is the whole of it has no separator, and so
/// only one piece.
proof fn lemma_split_on_count(s: Seq<u8>, sep: u8)
    requires
        split_on(s, sep)[0].len() == s.len(),
    ensures
        split_on(s, sep).len() == 1,
    decreases s.len(),
{
    lemma_split_on_nonempty(s, sep);
    if s.len() > 0 {
        let d = s.drop_last();
        let p = split_on(d, sep);
        lemma_split_on_nonempty(d, sep);
        lemma_first_piece(d, sep);
        if s.last() == sep {
            assert(split_on(s, sep)[0] == p[0]);
        } else if p.len() > 1 {
            assert(split_on(s, sep)[0] == p[0]);
        }
    }
}

/// Whether `a` and the word `w` hold the same bytes.
fn is_word(a: &Vec<u8>, w: &[u8]) -> (r: bool)
    ensures
        r == (a@ == w@),
{
    bytes_eq(a.as_slice(), w)
}

/// Splits a command line (terminator already stripped) into verb and
/// argument.
pub fn parse_command(line: &[u8]) -> (r: Command)
    ensures
        r.arg@ == arg_text(line@),
        r.verb == verb_of(upper_seq(verb_token(line@)), arg_text(line@)),
{
    let pieces = split_bytes(line, SP);
    proof {
        lemma_split_on_nonempty(line@, SP);
        lemma_first_piece(line@, SP);
    }
    let first: &Vec<u8> = &pieces[0];
    assert(first@ == verb_token(line@));
    let token = to_upper(first.as_slice());
    let n = first.len();
    let mut rest: Vec<u8> = Vec::new();
    if n < line.len() {
        let mut j: usize = n + 1;
        while j < line.len()
            invariant
                n + 1 <= j <= line@.len(),
                rest@ == line@.subrange(n + 1, j as int),
            decreases line@.len() - j,
        {
            rest.push(line[j]);
            j = j + 1;
            assert(rest@ =~= line@.subrange(n + 1, j as int));
        }
        assert(rest@ =~= line@.skip(n + 1));
    }
    let arg = if n < line.len() {
        trim(rest.as_slice())
    } else {
        Vec::new()
    };
    assert(arg@ == arg_text(line@));
    let has_arg = arg.len() > 0;
    let verb = if is_word(&token, &[85u8, 83, 69, 82]) && has_arg {
        Verb::User
    } else if is_word(&token, &[80u8, 65, 83, 83]) {
        Verb::Pass
    } else if is_word(&token, &[80u8, 79, 82, 84]) && has_arg {
        Verb::Port
    } else if is_word(&token, &[80u8, 65, 83, 86]) && !has_arg {
        Verb::Pasv
    } else if is_word(&token, &[84u8, 89, 80, 69]) && has_arg {
        Verb::Type
    } else if is_word(&token, &[77u8, 79, 68, 69]) && has_arg {
        Verb::Mode
    } else if is_word(&token, &[83u8, 84, 82, 85]) && has_arg {
        Verb::Stru
    } else if is_word(&token, &[67u8, 87, 68]) && has_arg {
        Verb::Cwd
    } else if is_word(&token, &[80u8, 87, 68]) && !has_arg {
        Verb::Pwd
    } else if is_word(&token, &[76u8, 73, 83, 84]) {
        Verb::List
    } else if is_word(&token, &[82u8, 69, 84, 82]) && has_arg {
        Verb::Retr
    } else if is_word(&token, &[83u8, 84, 79, 82]) && has_arg {
        Verb::Stor
    } else if is_word(&token, &[70u8, 69, 65, 84]) && !has_arg {
        Verb::Feat
    } else if is_word(&token, &[83u8, 89, 83, 84]) && !has_arg {
        Verb::Syst
    } else if is_word(&token, &[78u8, 79, 79, 80]) && !has_arg {
        Verb::Noop
    } else if is_word(&token, &[79u8, 80, 84, 83]) && is_word(
        &to_upper(arg.as_slice()),
        &[85u8, 84, 70, 56, 32, 79, 78],
    ) {
        Verb::OptsUtf8
    } else if is_word(&token, &[81u8, 85, 73, 84]) && !has_arg {
        Verb::Quit
    } else {
        Verb::Unknown
    };
    Command { verb, arg }
}

/// The path that a LIST argument names: its first space-separated piece
/// that does not start with `-` (options are ignored), or nothing.
pub open spec fn first_non_option(pieces: Seq<Seq<u8>>) -> Seq<u8>
    decreases pieces.len(),
{
    if pieces.len() == 0 {
        Seq::empty()
    } else if !(pieces[0].len() > 0 && pieces[0][0] == DASH) {
        pieces[0]
    } else {
        first_non_option(pieces.skip(1))
    }
}

/// The dash that starts an option.
pub const DASH: u8 = 45;

pub open spec fn list_target(arg: Seq<u8>) -> Seq<u8> {
    first_non_option(split_on(arg, SP))
}

/// The path that the argument of LIST names, options skipped.
pub fn list_path(arg: &[u8]) -> (r: Vec<u8>)
    ensures
        r@ == list_target(arg@),
{
    let pieces = split_bytes(arg, SP);
    let ghost ps = views(pieces@);
    let mut i: usize = 0;
    assert(ps.skip(0) =~= ps);
    while i < pieces.len()
        invariant
            0 <= i <= pieces@.len(),
            ps == views(pieces@),
            first_non_option(ps.skip(i as int)) == list_target(arg@),
        decreases pieces@.len() - i,
    {
        let p: &Vec<u8> = &pieces[i];
        assert(p@ == ps.skip(i as int)[0]);
        if !(p.len() > 0 && p[0] == DASH) {
            return copy_bytes(p.as_slice());
        }
        assert(ps.skip(i as int).skip(1) =~= ps.skip(i + 1));
        i = i + 1;
    }
    Vec::new()
}

} // verus!
