//! The pieces in which a stream of command output is written to a raw
//! terminal: one per line, each after a raw line break.

use crate::error::ShellError;
use crate::text::{split_char, split_seq, strings_view, strs_view, utf8_to_string};
use vstd::prelude::*;
use vstd::utf8::{decode_utf8, valid_utf8};

verus! {

/// A piece of output that carries no line: empty or a single NUL.
pub open spec fn is_blank_piece(s: Seq<char>) -> bool {
    s.len() == 0 || s == seq!['\0']
}

/// The lines of `pieces` that carry text, in order.
pub open spec fn kept_lines(pieces: Seq<Seq<char>>) -> Seq<Seq<char>>
    decreases pieces.len(),
{
    if pieces.len() == 0 {
        pieces
    } else {
        let rest = kept_lines(pieces.drop_last());
        if is_blank_piece(pieces.last()) {
            rest
        } else {
            rest.push(pieces.last())
        }
    }
}

/// What to write for the lines of `text`: each line after a raw line
/// break, except the first when `skip_first_newline`.
pub open spec fn line_pieces(text: Seq<char>, skip_first_newline: bool) -> Seq<Seq<char>> {
    let lines = kept_lines(split_seq(text, '\n'));
    Seq::new(
        lines.len(),
        |k: int|
            if k == 0 && skip_first_newline {
                lines[k]
            } else {
                seq!['\r', '\n'] + lines[k]
            },
    )
}

/// Whether the first line break is still to be skipped after `text`.
pub open spec fn still_skipping(text: Seq<char>, skip_first_newline: bool) -> bool {
    skip_first_newline && kept_lines(split_seq(text, '\n')).len() == 0
}

/// The pieces to write for the bytes `data` read from a stream, and
/// whether the first line break is still to be skipped; fails when the
/// bytes are not UTF-8.
pub fn write_lines(data: Vec<u8>, skip_first_newline: bool) -> (res: Result<(Vec<String>, bool), ShellError>)
    ensures
        match res {
            Ok((pieces, skip)) => valid_utf8(data@) && strings_view(pieces@) == line_pieces(
                decode_utf8(data@),
                skip_first_newline,
            ) && skip == still_skipping(decode_utf8(data@), skip_first_newline),
            Err(e) => !valid_utf8(data@) && e is FromUtf8,
        },
{
    let ghost bytes = data@;
    let readed = match utf8_to_string(data) {
        Some(r) => r,
        None => {
            return Err(ShellError::FromUtf8);
        },
    };
    let ghost text = readed@;
    let parts = split_char(readed.as_str(), '\n');
    let ghost pv = strs_view(parts@);
    let mut skip = skip_first_newline;
    let mut pieces: Vec<String> = Vec::new();
    let mut i: usize = 0;
    while i < parts.len()
        invariant
            pv == strs_view(parts@),
            i <= parts.len(),
            skip == (skip_first_newline && kept_lines(pv.take(i as int)).len() == 0),
            strings_view(pieces@) == Seq::new(
                kept_lines(pv.take(i as int)).len(),
                |k: int|
                    if k == 0 && skip_first_newline {
                        kept_lines(pv.take(i as int))[k]
                    } else {
                        seq!['\r', '\n'] + kept_lines(pv.take(i as int))[k]
                    },
            ),
        decreases parts.len() - i,
    {
        let line = parts[i];
        assert(pv.take(i + 1).drop_last() =~= pv.take(i as int));
        assert(pv.take(i + 1).last() == line@);
        let n = line.unicode_len();
        let blank = n == 0 || (n == 1 && line.get_char(0) == '\0');
        assert(blank == is_blank_piece(line@)) by {
            if n == 1 && line@[0] == '\0' {
                assert(line@ =~= seq!['\0']);
            }
        }
        if !blank {
            let piece = if skip {
                line.to_owned()
            } else {
                let mut p = String::new();
                crate::text::push_char(&mut p, '\r');
                crate::text::push_char(&mut p, '\n');
                p.append(line);
                p
            };
            let ghost old_skip = skip;
            let ghost old_pieces = strings_view(pieces@);
            skip = false;
            pieces.push(piece);
            proof {
                let kl = kept_lines(pv.take(i + 1));
                let ko = kept_lines(pv.take(i as int));
                assert(kl == ko.push(line@));
                assert(strings_view(pieces@) =~= old_pieces.push(piece@));
                assert(piece@ == if ko.len() == 0 && skip_first_newline {
                    line@
                } else {
                    seq!['\r', '\n'] + line@
                }) by {
                    if !old_skip {
                        assert(piece@ =~= seq!['\r', '\n'] + line@);
                    }
                }
                assert(strings_view(pieces@) =~= Seq::new(
                    kl.len(),
                    |k: int|
                        if k == 0 && skip_first_newline {
                            kl[k]
                        } else {
                            seq!['\r', '\n'] + kl[k]
                        },
                ));
            }
        }
        i = i + 1;
    }
    assert(pv.take(parts.len() as int) =~= pv);
    Ok((pieces, skip))
}

} // verus!
