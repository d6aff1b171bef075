//! Board identity: release-file parsing, device-tree fallbacks, and the
//! firmware-release label table.
//!
//! Identity merges several sources in a fixed precedence: the release
//! file first, then device-tree fields, then heuristic matching of the
//! device-tree compatible identifiers. A release label is derived from
//! the raw low-level version by table lookup; no match yields an
//! explicit "Unknown", never a guess.

use vstd::prelude::*;
use vstd::string::StringExecFns;

use crate::fsview::FsView;
use crate::text::{
    all_dec_digits, chars_eq, chars_of, contains, contains_seq, dec_chars, dec_value,
    find_char_from, find_first_match, find_first_of3, first_idx_of, first_match_idx,
    first_of3_idx, lines_spec, lower_all, lower_seq, matches_at, sep_split_spec,
    split_sep, strip_trailing, strip_trailing_end, trimmed, u64_to_string,
};

verus! {

/// Board identity, merged from every available source.
#[derive(Debug, Clone)]
pub struct BoardInfo {
    pub model: String,
    pub jetpack: String,
    pub l4t: String,
    pub serial: String,
}

impl Default for BoardInfo {
    /// The identity of a board nothing is known about.
    fn default() -> (r: BoardInfo)
        ensures
            r.model@ == "Unknown Jetson Board"@,
            r.jetpack@ == "Unknown"@,
            r.l4t@ == "Unknown"@,
            r.serial@ == "Unknown"@,
    {
        BoardInfo {
            model: "Unknown Jetson Board".to_owned(),
            jetpack: "Unknown".to_owned(),
            l4t: "Unknown".to_owned(),
            serial: "Unknown".to_owned(),
        }
    }
}

/// A release number parsed best-effort: zero where malformed or too
/// large.
pub open spec fn relnum_of(s: Seq<char>) -> int {
    if s.len() > 0 && all_dec_digits(s) && dec_value(s) <= u32::MAX {
        dec_value(s)
    } else {
        0
    }
}

/// The low-level version a release-file comment line carries, in the
/// shape "# R<num> (release), REVISION: <rev>, ...": the number after
/// the first R, and the revision up to the following comma. A line
/// without that shape leaves the current value unchanged, and a current
/// value is never overwritten.
pub open spec fn l4t_from_comment_spec(line: Seq<char>, current: Seq<char>) -> Seq<char> {
    if current.len() == 0 && first_idx_of(line, 'R') < line.len() {
        let rest = line.skip(first_idx_of(line, 'R') + 1);
        if first_idx_of(rest, ' ') < rest.len() {
            let num = relnum_of(rest.take(first_idx_of(rest, ' ')));
            if num >= 20 {
                if first_match_idx(line, "REVISION:"@) < line.len() {
                    let rest2 = line.skip(first_match_idx(line, "REVISION:"@) + 9);
                    if first_idx_of(rest2, ',') < rest2.len() {
                        dec_chars(num) + "."@ + trimmed(rest2.take(first_idx_of(rest2, ',')))
                    } else {
                        dec_chars(num) + ".0"@
                    }
                } else {
                    dec_chars(num) + ".0"@
                }
            } else {
                current
            }
        } else {
            current
        }
    } else {
        current
    }
}

/// The release label a comment line carries through an embedded
/// "JETPACK_VERSION=" assignment, up to the first comma, space or line
/// break; an existing current value is kept.
pub open spec fn jetpack_from_comment_spec(line: Seq<char>, current: Seq<char>) -> Seq<char> {
    if current.len() > 0 {
        current
    } else if first_match_idx(line, "JETPACK_VERSION="@) < line.len() {
        let rest = line.skip(first_match_idx(line, "JETPACK_VERSION="@) + 16);
        trimmed(rest.take(first_of3_idx(rest, ',', ' ', '\n')))
    } else {
        current
    }
}

/// The board name a comment line carries after "BOARD:", up to the
/// first comma or line break; the generic placeholder does not count.
pub open spec fn board_from_comment_spec(line: Seq<char>) -> Option<Seq<char>> {
    if first_match_idx(line, "BOARD:"@) < line.len() {
        let rest = line.skip(first_match_idx(line, "BOARD:"@) + 6);
        let end = if first_idx_of(rest, ',') < rest.len() {
            first_idx_of(rest, ',')
        } else if first_idx_of(rest, '\n') < rest.len() {
            first_idx_of(rest, '\n')
        } else {
            rest.len() as int
        };
        let board = trimmed(rest.take(end));
        if board != "generic"@ && board.len() > 0 {
            Some(board)
        } else {
            None
        }
    } else {
        None
    }
}

/// The key/value split of a release-file line at its first '='.
pub open spec fn eq_split(l: Seq<char>) -> Option<(Seq<char>, Seq<char>)> {
    let ci = first_idx_of(l, '=');
    if 0 <= ci < l.len() {
        Some((trimmed(l.subrange(0, ci)), trimmed(l.subrange(ci + 1, l.len() as int))))
    } else {
        None
    }
}

/// The low-level version the release content announces: the first
/// "L4T_VERSION=" line, else the first comment line that carries one.
pub open spec fn l4t_version_spec(ls: Seq<Seq<char>>) -> Seq<char>
    decreases ls.len(),
{
    if ls.len() == 0 {
        Seq::empty()
    } else {
        match eq_split(ls[0]) {
            Some(kv) => if kv.0 == "L4T_VERSION"@ {
                kv.1
            } else {
                l4t_version_spec(ls.drop_first())
            },
            None => if matches_at(ls[0], "#"@, 0) {
                let c = l4t_from_comment_spec(ls[0], Seq::empty());
                if c.len() > 0 {
                    c
                } else {
                    l4t_version_spec(ls.drop_first())
                }
            } else {
                l4t_version_spec(ls.drop_first())
            },
        }
    }
}

/// The release label the release content announces: the first
/// "JETPACK_VERSION=" line, else the first comment line that carries
/// one.
pub open spec fn jetpack_version_spec(ls: Seq<Seq<char>>) -> Seq<char>
    decreases ls.len(),
{
    if ls.len() == 0 {
        Seq::empty()
    } else {
        match eq_split(ls[0]) {
            Some(kv) => if kv.0 == "JETPACK_VERSION"@ {
                kv.1
            } else {
                jetpack_version_spec(ls.drop_first())
            },
            None => if matches_at(ls[0], "#"@, 0) {
                let c = jetpack_from_comment_spec(ls[0], Seq::empty());
                if c.len() > 0 {
                    c
                } else {
                    jetpack_version_spec(ls.drop_first())
                }
            } else {
                jetpack_version_spec(ls.drop_first())
            },
        }
    }
}

/// The release label of one known low-level version line, by exact
/// table lookup over the static version table; "Unknown" otherwise.
pub open spec fn jetpack_for_key(key: Seq<char>) -> Seq<char> {
    if key == "38.4.4"@ {
        "7.1"@
    } else if key == "38.4.3"@ {
        "7.1"@
    } else if key == "38.4.2"@ {
        "7.1"@
    } else if key == "38.4.1"@ {
        "7.1"@
    } else if key == "38.4"@ {
        "7.1"@
    } else if key == "38.2.1"@ {
        "7.0"@
    } else if key == "38.2"@ {
        "7.0"@
    } else if key == "38.1"@ {
        "7.0"@
    } else if key == "38.0"@ {
        "7.0"@
    } else if key == "36.4.7"@ {
        "6.2.1"@
    } else if key == "36.4.6"@ {
        "6.2.1"@
    } else if key == "36.4.5"@ {
        "6.2.1"@
    } else if key == "36.4.4"@ {
        "6.2.1"@
    } else if key == "36.4.3"@ {
        "6.2"@
    } else if key == "36.4.2"@ {
        "6.2"@
    } else if key == "36.4.1"@ {
        "6.2"@
    } else if key == "36.4"@ {
        "6.1"@
    } else if key == "36.3"@ {
        "6.0"@
    } else if key == "36.2"@ {
        "6.0 DP"@
    } else if key == "36.1"@ {
        "6.0"@
    } else if key == "36.0"@ {
        "6.0"@
    } else if key == "35.6.2"@ {
        "5.1.5"@
    } else if key == "35.6.1"@ {
        "5.1.5"@
    } else if key == "35.6"@ {
        "5.1.4"@
    } else if key == "35.5"@ {
        "5.1.3"@
    } else if key == "35.4.1"@ {
        "5.1.2"@
    } else if key == "35.4"@ {
        "5.1.2"@
    } else if key == "35.3.1"@ {
        "5.1.1"@
    } else if key == "35.3"@ {
        "5.1.1"@
    } else if key == "35.2.1"@ {
        "5.1"@
    } else if key == "35.2"@ {
        "5.1"@
    } else if key == "35.1"@ {
        "5.1"@
    } else if key == "35.0"@ {
        "5.1"@
    } else if key == "34.1.1"@ {
        "5.0.1 DP"@
    } else if key == "34.1"@ {
        "5.0 DP"@
    } else if key == "34.0"@ {
        "5.0 DP"@
    } else if key == "32.7.6"@ {
        "4.6.6"@
    } else if key == "32.7.5"@ {
        "4.6.5"@
    } else if key == "32.7.4"@ {
        "4.6.4"@
    } else if key == "32.7.3"@ {
        "4.6.3"@
    } else if key == "32.7.2"@ {
        "4.6.2"@
    } else if key == "32.7.1"@ {
        "4.6.1"@
    } else if key == "32.7"@ {
        "4.6.x"@
    } else if key == "32.6.1"@ {
        "4.6"@
    } else if key == "32.6"@ {
        "4.6"@
    } else if key == "32.5.1"@ {
        "4.5.1"@
    } else if key == "32.5"@ {
        "4.5"@
    } else if key == "32.4.4"@ {
        "4.4.1"@
    } else if key == "32.4.3"@ {
        "4.4"@
    } else if key == "32.4.2"@ {
        "4.4 DP"@
    } else if key == "32.4"@ {
        "4.4"@
    } else if key == "32.3.1"@ {
        "4.3"@
    } else if key == "32.3"@ {
        "4.3"@
    } else if key == "32.2.1"@ {
        "4.2.3"@
    } else if key == "32.2"@ {
        "4.2.2"@
    } else if key == "32.1.1"@ {
        "4.1.1 DP"@
    } else if key == "32.1"@ {
        "4.1"@
    } else if key == "31.1"@ {
        "4.1 DP"@
    } else if key == "31.0"@ {
        "4.1 DP"@
    } else if key == "28.5"@ {
        "3.3.4"@
    } else if key == "28.4"@ {
        "3.3.3"@
    } else if key == "28.3.2"@ {
        "3.3.2"@
    } else if key == "28.3.1"@ {
        "3.3.1"@
    } else if key == "28.3"@ {
        "3.3.2"@
    } else if key == "28.2.1"@ {
        "3.3"@
    } else if key == "28.2"@ {
        "3.2.1"@
    } else if key == "27.1"@ {
        "3.0"@
    } else if key == "26.0"@ {
        "3.0"@
    } else if key == "25.0"@ {
        "3.0"@
    } else if key == "24.2.1"@ {
        "2.3.1"@
    } else if key == "24.1"@ {
        "2.3"@
    } else if key == "23.0"@ {
        "2.3"@
    } else if key == "22.0"@ {
        "2.3"@
    } else if key == "21.5"@ {
        "2.3.1"@
    } else if key == "21.0"@ {
        "2.3"@
    } else {
        "Unknown"@
    }
}

/// The lookup key of a low-level version: its first three dot-parts,
/// or its first two where no third exists.
pub open spec fn jetpack_key_of(l4t: Seq<char>) -> Option<Seq<char>> {
    let parts = sep_split_spec(l4t, '.');
    if parts.len() < 2 {
        None
    } else if parts.len() >= 3 {
        Some(parts[0] + "."@ + parts[1] + "."@ + parts[2])
    } else {
        Some(parts[0] + "."@ + parts[1])
    }
}

/// Derive the release label from a low-level version by nearest-prefix
/// table lookup; no match yields "Unknown", never a guess.
pub fn derive_jetpack_from_l4t(l4t: &str) -> (r: String)
    ensures
        r@ == match jetpack_key_of(l4t@) {
            Some(key) => jetpack_for_key(key),
            None => "Unknown"@,
        },
{
    let cv = chars_of(l4t);
    let parts = split_sep(cv.as_slice(), '.');
    if parts.len() < 2 {
        return "Unknown".to_owned();
    }
    let key: Vec<char> = if parts.len() >= 3 {
        let a = crate::text::concat3_chars(
            parts[0].as_slice(),
            chars_of(".").as_slice(),
            parts[1].as_slice(),
        );
        crate::text::concat3_chars(a.as_slice(), chars_of(".").as_slice(), parts[2].as_slice())
    } else {
        crate::text::concat3_chars(
            parts[0].as_slice(),
            chars_of(".").as_slice(),
            parts[1].as_slice(),
        )
    };
    proof {
        let pv = parts@.map_values(|p: Vec<char>| p@);
        assert(pv == sep_split_spec(l4t@, '.'));
        if pv.len() >= 3 {
            assert(key@ =~= pv[0] + "."@ + pv[1] + "."@ + pv[2]);
        } else {
            assert(key@ =~= pv[0] + "."@ + pv[1]);
        }
    }
    lookup_jetpack(key.as_slice())
}

/// Parse the low-level version out of a release-file comment line,
/// keeping `current_l4t` where the line carries none.
#[verifier::rlimit(100)]
pub fn parse_l4t_from_comment(line: &str, current_l4t: &str) -> (r: String)
    ensures
        r@ == l4t_from_comment_spec(line@, current_l4t@),
{
    if current_l4t.unicode_len() > 0 {
        return current_l4t.to_owned();
    }
    let cv = chars_of(line);
    let n: usize = cv.len();
    let start = match find_char_from(cv.as_slice(), 'R', 0) {
        Some(i) => i,
        None => {
            proof {
                crate::text::lemma_first_idx_is(line@, 'R', n as int);
            }
            return current_l4t.to_owned();
        }
    };
    proof {
        crate::text::lemma_first_idx_is(line@, 'R', start as int);
    }
    let rest = &cv.as_slice()[start + 1..n];
    proof {
        assert(rest@ =~= line@.skip(start + 1));
    }
    let end = match find_char_from(rest, ' ', 0) {
        Some(i) => i,
        None => {
            proof {
                crate::text::lemma_first_idx_is(rest@, ' ', rest@.len() as int);
            }
            return current_l4t.to_owned();
        }
    };
    proof {
        crate::text::lemma_first_idx_is(rest@, ' ', end as int);
    }
    let numc = &rest[0..end];
    proof {
        assert(numc@ =~= line@.skip(start + 1).take(end as int));
    }
    let num: u64 = match crate::text::parse_u64(numc) {
        Some(v) => if v <= u32::MAX as u64 {
            v
        } else {
            0
        },
        None => 0,
    };
    if num < 20 {
        return current_l4t.to_owned();
    }
    let revpat = chars_of("REVISION:");
    proof {
        reveal_strlit("REVISION:");
    }
    let ridx = find_first_match(cv.as_slice(), revpat.as_slice());
    let mut out = u64_to_string(num);
    proof {
        reveal_strlit(".");
        reveal_strlit(".0");
    }
    if ridx < n {
        let rest2 = &cv.as_slice()[ridx + 9..n];
        proof {
            reveal_strlit("REVISION:");
            assert(rest2@ =~= line@.skip(first_match_idx(line@, "REVISION:"@) + 9));
        }
        match find_char_from(rest2, ',', 0) {
            Some(rend) => {
                proof {
                    crate::text::lemma_first_idx_is(rest2@, ',', rend as int);
                }
                let piece = &rest2[0..rend];
                let ghost piecev = piece@;
                let (a, b) = crate::text::trim_bounds(piece);
                let revs = line.substring_char(ridx + 9 + a, ridx + 9 + b);
                proof {
                    assert(piecev =~= rest2@.take(rend as int));
                    assert(revs@ =~= piecev.subrange(a as int, b as int));
                    assert(revs@ == trimmed(piecev));
                }
                out.append(".");
                out.append(revs);
                proof {
                    let specv = l4t_from_comment_spec(line@, current_l4t@);
                    assert(specv == dec_chars(num as int) + "."@ + trimmed(
                        rest2@.take(rend as int),
                    ));
                    assert(out@ =~= specv);
                }
                return out;
            }
            None => {
                proof {
                    crate::text::lemma_first_idx_is(rest2@, ',', rest2@.len() as int);
                }
            }
        }
    }
    out.append(".0");
    proof {
        let specv = l4t_from_comment_spec(line@, current_l4t@);
        assert(specv == dec_chars(num as int) + ".0"@);
        assert(out@ =~= specv);
    }
    out
}

/// Parse the release label out of a comment line's embedded
/// assignment, keeping `current_jetpack` where the line carries none.
#[verifier::rlimit(100)]
pub fn parse_jetpack_from_comment(line: &str, current_jetpack: &str) -> (r: String)
    ensures
        r@ == jetpack_from_comment_spec(line@, current_jetpack@),
{
    if current_jetpack.unicode_len() > 0 {
        return current_jetpack.to_owned();
    }
    let cv = chars_of(line);
    let n: usize = cv.len();
    let pat = chars_of("JETPACK_VERSION=");
    proof {
        reveal_strlit("JETPACK_VERSION=");
    }
    let idx = find_first_match(cv.as_slice(), pat.as_slice());
    if idx < n {
        let rest = &cv.as_slice()[idx + 16..n];
        proof {
            reveal_strlit("JETPACK_VERSION=");
            assert(rest@ =~= line@.skip(first_match_idx(line@, "JETPACK_VERSION="@) + 16));
        }
        let end = crate::text::find_first_of3(rest, ',', ' ', '\n');
        let piece = &rest[0..end];
        let ghost piecev = piece@;
        let (a, b) = crate::text::trim_bounds(piece);
        let r = line.substring_char(idx + 16 + a, idx + 16 + b).to_owned();
        proof {
            assert(piecev =~= rest@.take(first_of3_idx(rest@, ',', ' ', '\n')));
            assert(r@ =~= piecev.subrange(a as int, b as int));
            assert(r@ == trimmed(piecev));
        }
        r
    } else {
        current_jetpack.to_owned()
    }
}

/// Parse the board name out of a release-file comment line, where one
/// is present and not the generic placeholder.
#[verifier::rlimit(100)]
pub fn parse_board_from_comment(line: &str) -> (r: Option<String>)
    ensures
        match board_from_comment_spec(line@) {
            Some(b) => r matches Some(s) && s@ == b,
            None => r is None,
        },
{
    let cv = chars_of(line);
    let n: usize = cv.len();
    let pat = chars_of("BOARD:");
    proof {
        reveal_strlit("BOARD:");
    }
    let idx = find_first_match(cv.as_slice(), pat.as_slice());
    if idx < n {
        let rest = &cv.as_slice()[idx + 6..n];
        proof {
            reveal_strlit("BOARD:");
            assert(rest@ =~= line@.skip(first_match_idx(line@, "BOARD:"@) + 6));
        }
        let rn: usize = rest.len();
        let end: usize = match find_char_from(rest, ',', 0) {
            Some(e) => {
                proof {
                    crate::text::lemma_first_idx_is(rest@, ',', e as int);
                }
                e
            }
            None => {
                proof {
                    crate::text::lemma_first_idx_is(rest@, ',', rn as int);
                }
                match find_char_from(rest, '\n', 0) {
                    Some(e) => {
                        proof {
                            crate::text::lemma_first_idx_is(rest@, '\n', e as int);
                        }
                        e
                    }
                    None => {
                        proof {
                            crate::text::lemma_first_idx_is(rest@, '\n', rn as int);
                        }
                        rn
                    }
                }
            }
        };
        let piece = &rest[0..end];
        let ghost piecev = piece@;
        let (a, b) = crate::text::trim_bounds(piece);
        let board = line.substring_char(idx + 6 + a, idx + 6 + b);
        let bc = chars_of(board);
        proof {
            assert(piecev =~= rest@.take(end as int));
            assert(board@ =~= piecev.subrange(a as int, b as int));
            assert(bc@ == trimmed(piecev));
        }
        if bc.len() > 0 && !chars_eq(bc.as_slice(), chars_of("generic").as_slice()) {
            Some(board.to_owned())
        } else {
            None
        }
    } else {
        None
    }
}

/// Parse the low-level version from the whole release-file content.
#[verifier::rlimit(100)]
pub fn parse_l4t_version(content: &str) -> (r: String)
    ensures
        r@ == l4t_version_spec(lines_spec(content@)),
{
    let cv = chars_of(content);
    let spans = crate::text::line_spans(cv.as_slice());
    let ghost lsv = lines_spec(content@);
    let n: usize = spans.len();
    let key_pat = chars_of("L4T_VERSION");
    let hash_pat = chars_of("#");
    let mut k: usize = 0;
    proof {
        assert(lsv.skip(0) =~= lsv);
    }
    while k < n
        invariant
            n == spans@.len(),
            cv@ == content@,
            lsv == lines_spec(content@),
            spans@.map_values(|p: (usize, usize)| cv@.subrange(p.0 as int, p.1 as int)) == lsv,
            forall|j: int|
                0 <= j < n ==> (#[trigger] spans@[j]).0 <= spans@[j].1 && spans@[j].1 <= cv@.len(),
            k <= n,
            key_pat@ == "L4T_VERSION"@ && hash_pat@ == "#"@,
            l4t_version_spec(lsv) == l4t_version_spec(lsv.skip(k as int)),
        decreases n - k,
    {
        proof {
            assert(lsv.skip(k as int).drop_first() =~= lsv.skip(k as int + 1));
            assert(lsv.skip(k as int)[0] == lsv[k as int]);
            assert(lsv[k as int] == cv@.subrange(spans@[k as int].0 as int, spans@[k as int].1 as int));
        }
        let (sa, se) = (spans[k].0, spans[k].1);
        let lv = &cv.as_slice()[sa..se];
        match crate::text::split_once_at(lv, '=') {
            Some((ci, vi)) => {
                let keyc = crate::text::trim_copy(&lv[0..ci]);
                proof {
                    assert(lv@.subrange(0, ci as int) =~= lsv[k as int].subrange(0, ci as int));
                }
                if chars_eq(keyc.as_slice(), key_pat.as_slice()) {
                    let ln: usize = se - sa;
                    let piece = &lv[vi..ln];
                    let ghost piecev = piece@;
                    let (a, b) = crate::text::trim_bounds(piece);
                    let r = content.substring_char(sa + vi + a, sa + vi + b).to_owned();
                    proof {
                        let l = lsv[k as int];
                        assert(piecev =~= l.subrange(ci + 1, l.len() as int));
                        assert(r@ =~= piecev.subrange(a as int, b as int));
                        assert(r@ == trimmed(piecev));
                        assert(l4t_version_spec(lsv.skip(k as int)) == r@);
                    }
                    return r;
                }
            }
            None => {
                if crate::text::starts_with(lv, hash_pat.as_slice()) {
                    let line_str = content.substring_char(sa, se);
                    let empty_cur = "";
                    proof {
                        reveal_strlit("");
                        assert(empty_cur@ =~= Seq::<char>::empty());
                        assert(line_str@ == lsv[k as int]);
                    }
                    let c = parse_l4t_from_comment(line_str, empty_cur);
                    if c.as_str().unicode_len() > 0 {
                        proof {
                            assert(l4t_version_spec(lsv.skip(k as int)) == c@);
                        }
                        return c;
                    }
                }
            }
        }
        k += 1;
    }
    proof {
        assert(lsv.skip(n as int) =~= Seq::<Seq<char>>::empty());
        reveal_strlit("");
    }
    let r = "".to_owned();
    proof {
        assert(r@ =~= Seq::<char>::empty());
    }
    r
}

/// Parse the release label from the whole release-file content.
#[verifier::rlimit(100)]
pub fn parse_jetpack_version(content: &str) -> (r: String)
    ensures
        r@ == jetpack_version_spec(lines_spec(content@)),
{
    let cv = chars_of(content);
    let spans = crate::text::line_spans(cv.as_slice());
    let ghost lsv = lines_spec(content@);
    let n: usize = spans.len();
    let key_pat = chars_of("JETPACK_VERSION");
    let hash_pat = chars_of("#");
    let mut k: usize = 0;
    proof {
        assert(lsv.skip(0) =~= lsv);
    }
    while k < n
        invariant
            n == spans@.len(),
            cv@ == content@,
            lsv == lines_spec(content@),
            spans@.map_values(|p: (usize, usize)| cv@.subrange(p.0 as int, p.1 as int)) == lsv,
            forall|j: int|
                0 <= j < n ==> (#[trigger] spans@[j]).0 <= spans@[j].1 && spans@[j].1 <= cv@.len(),
            k <= n,
            key_pat@ == "JETPACK_VERSION"@ && hash_pat@ == "#"@,
            jetpack_version_spec(lsv) == jetpack_version_spec(lsv.skip(k as int)),
        decreases n - k,
    {
        proof {
            assert(lsv.skip(k as int).drop_first() =~= lsv.skip(k as int + 1));
            assert(lsv.skip(k as int)[0] == lsv[k as int]);
            assert(lsv[k as int] == cv@.subrange(spans@[k as int].0 as int, spans@[k as int].1 as int));
        }
        let (sa, se) = (spans[k].0, spans[k].1);
        let lv = &cv.as_slice()[sa..se];
        match crate::text::split_once_at(lv, '=') {
            Some((ci, vi)) => {
                let keyc = crate::text::trim_copy(&lv[0..ci]);
                proof {
                    assert(lv@.subrange(0, ci as int) =~= lsv[k as int].subrange(0, ci as int));
                }
                if chars_eq(keyc.as_slice(), key_pat.as_slice()) {
                    let ln: usize = se - sa;
                    let piece = &lv[vi..ln];
                    let ghost piecev = piece@;
                    let (a, b) = crate::text::trim_bounds(piece);
                    let r = content.substring_char(sa + vi + a, sa + vi + b).to_owned();
                    proof {
                        let l = lsv[k as int];
                        assert(piecev =~= l.subrange(ci + 1, l.len() as int));
                        assert(r@ =~= piecev.subrange(a as int, b as int));
                        assert(r@ == trimmed(piecev));
                        assert(jetpack_version_spec(lsv.skip(k as int)) == r@);
                    }
                    return r;
                }
            }
            None => {
                if crate::text::starts_with(lv, hash_pat.as_slice()) {
                    let line_str = content.substring_char(sa, se);
                    let empty_cur = "";
                    proof {
                        reveal_strlit("");
                        assert(empty_cur@ =~= Seq::<char>::empty());
                        assert(line_str@ == lsv[k as int]);
                    }
                    let c = parse_jetpack_from_comment(line_str, empty_cur);
                    if c.as_str().unicode_len() > 0 {
                        proof {
                            assert(jetpack_version_spec(lsv.skip(k as int)) == c@);
                        }
                        return c;
                    }
                }
            }
        }
        k += 1;
    }
    proof {
        assert(lsv.skip(n as int) =~= Seq::<Seq<char>>::empty());
        reveal_strlit("");
    }
    let r = "".to_owned();
    proof {
        assert(r@ =~= Seq::<char>::empty());
    }
    r
}

/// Where the device tree exposes the model name.
pub open spec fn model_path() -> Seq<char> {
    "/sys/firmware/devicetree/base/model"@
}

/// Where the device tree exposes the compatible identifiers.
pub open spec fn compatible_path() -> Seq<char> {
    "/sys/firmware/devicetree/base/compatible"@
}

/// Where the device tree exposes the serial number.
pub open spec fn serial_path() -> Seq<char> {
    "/sys/firmware/devicetree/base/serial-number"@
}

/// A device-tree string field: trailing NUL padding dropped, then
/// trimmed; the fallback where empty or absent.
pub open spec fn dt_string_of(fs: &FsView, p: Seq<char>, fallback: Seq<char>) -> Seq<char> {
    match fs.file_at(p) {
        Some(c) => {
            let t = trimmed(strip_trailing(c, '\u{0}'));
            if t.len() > 0 {
                t
            } else {
                fallback
            }
        },
        None => fallback,
    }
}

/// The model a single compatible identifier names, if a known one.
pub open spec fn model_for_piece(p: Seq<char>) -> Option<Seq<char>> {
    if contains_seq(p, "nvidia,p3772"@) {
        Some("Jetson Xavier NX"@)
    } else if contains_seq(p, "nvidia,p3668"@) {
        Some("Jetson TX2 NX"@)
    } else if contains_seq(p, "nvidia,p3509"@) {
        Some("Jetson Nano"@)
    } else if contains_seq(p, "nvidia,p3701"@) {
        Some("Jetson AGX Orin"@)
    } else if contains_seq(p, "nvidia,p2888"@) {
        Some("Jetson TX1"@)
    } else if contains_seq(p, "nvidia,p2972"@) {
        Some("Jetson AGX Xavier"@)
    } else if contains_seq(p, "nvidia,tegra264"@) {
        Some("Jetson Thor"@)
    } else {
        None
    }
}

/// The model the compatible identifiers name: the first non-empty
/// identifier naming a known board wins.
pub open spec fn model_from_pieces(ps: Seq<Seq<char>>) -> Option<Seq<char>>
    decreases ps.len(),
{
    if ps.len() == 0 {
        None
    } else if ps[0].len() > 0 && model_for_piece(ps[0]) is Some {
        model_for_piece(ps[0])
    } else {
        model_from_pieces(ps.drop_first())
    }
}

/// The architecture label a version string names through its chip id.
pub open spec fn arch_for(s: Seq<char>) -> Option<Seq<char>> {
    let l = lower_seq(s);
    if contains_seq(l, "tegra264"@) {
        Some("Thor (tegra264)"@)
    } else if contains_seq(l, "tegra234"@) {
        Some("Orin (tegra234)"@)
    } else if contains_seq(l, "tegra194"@) {
        Some("Xavier (tegra194)"@)
    } else if contains_seq(l, "tegra186"@) {
        Some("TX2 (tegra186)"@)
    } else if contains_seq(l, "tegra210"@) {
        Some("TX1 (tegra210)"@)
    } else {
        None
    }
}

/// Detect the board model from the device-tree model field.
pub fn detect_board_model(fs: &FsView) -> (r: String)
    ensures
        r@ == dt_string_of(fs, model_path(), "Unknown Jetson Board"@),
{
    dt_string(fs, "/sys/firmware/devicetree/base/model", "Unknown Jetson Board")
}

/// Detect the serial number from the device tree.
pub fn detect_serial_number(fs: &FsView) -> (r: String)
    ensures
        r@ == dt_string_of(fs, serial_path(), "Unknown"@),
{
    dt_string(fs, "/sys/firmware/devicetree/base/serial-number", "Unknown")
}

/// Read one device-tree string field with its fallback.
fn dt_string(fs: &FsView, path: &str, fallback: &str) -> (r: String)
    ensures
        r@ == dt_string_of(fs, path@, fallback@),
{
    let pc = chars_of(path);
    match fs.read(pc.as_slice()) {
        Some(c) => {
            let cv = chars_of(c.as_str());
            let e = crate::text::strip_trailing_end(cv.as_slice(), '\u{0}');
            let head = &cv.as_slice()[0..e];
            let (a, b) = crate::text::trim_bounds(head);
            if b > a {
                let r = c.as_str().substring_char(a, b).to_owned();
                proof {
                    assert(head@ =~= strip_trailing(c@, '\u{0}'));
                    assert(r@ == trimmed(strip_trailing(c@, '\u{0}')));
                }
                r
            } else {
                proof {
                    assert(head@ =~= strip_trailing(c@, '\u{0}'));
                    assert(trimmed(strip_trailing(c@, '\u{0}')).len() == 0);
                }
                fallback.to_owned()
            }
        }
        None => fallback.to_owned(),
    }
}

/// Detect the board model from the compatible identifiers.
pub fn detect_model_from_compatible(fs: &FsView) -> (r: String)
    ensures
        r@ == match fs.file_at(compatible_path()) {
            Some(c) => match model_from_pieces(sep_split_spec(c, '\u{0}')) {
                Some(m) => m,
                None => "Unknown Jetson Board"@,
            },
            None => "Unknown Jetson Board"@,
        },
{
    let pc = chars_of("/sys/firmware/devicetree/base/compatible");
    let content = match fs.read(pc.as_slice()) {
        Some(c) => c,
        None => {
            return "Unknown Jetson Board".to_owned();
        }
    };
    let cv = chars_of(content.as_str());
    let ghost content0 = content@;
    let pieces = split_sep(cv.as_slice(), '\u{0}');
    let ghost psv = pieces@.map_values(|p: Vec<char>| p@);
    let n: usize = pieces.len();
    let mut i: usize = 0;
    proof {
        assert(psv.skip(0) =~= psv);
    }
    while i < n
        invariant
            n == pieces@.len(),
            psv == pieces@.map_values(|p: Vec<char>| p@),
            fs.file_at(compatible_path()) == Some(content0),
            psv == sep_split_spec(content0, '\u{0}'),
            i <= n,
            model_from_pieces(psv) == model_from_pieces(psv.skip(i as int)),
        decreases n - i,
    {
        proof {
            assert(psv.skip(i as int).drop_first() =~= psv.skip(i as int + 1));
            assert(psv.skip(i as int)[0] == psv[i as int]);
        }
        let p = &pieces[i];
        if p.len() > 0 {
            match piece_model(p.as_slice()) {
                Some(m) => {
                    return m;
                }
                None => {}
            }
        }
        i += 1;
    }
    proof {
        assert(psv.skip(n as int) =~= Seq::<Seq<char>>::empty());
    }
    "Unknown Jetson Board".to_owned()
}

/// The known-board lookup over one compatible identifier.
fn piece_model(p: &[char]) -> (r: Option<String>)
    ensures
        match model_for_piece(p@) {
            Some(m) => r matches Some(s) && s@ == m,
            None => r is None,
        },
{
    if contains(p, chars_of("nvidia,p3772").as_slice()) {
        Some("Jetson Xavier NX".to_owned())
    } else if contains(p, chars_of("nvidia,p3668").as_slice()) {
        Some("Jetson TX2 NX".to_owned())
    } else if contains(p, chars_of("nvidia,p3509").as_slice()) {
        Some("Jetson Nano".to_owned())
    } else if contains(p, chars_of("nvidia,p3701").as_slice()) {
        Some("Jetson AGX Orin".to_owned())
    } else if contains(p, chars_of("nvidia,p2888").as_slice()) {
        Some("Jetson TX1".to_owned())
    } else if contains(p, chars_of("nvidia,p2972").as_slice()) {
        Some("Jetson AGX Xavier".to_owned())
    } else if contains(p, chars_of("nvidia,tegra264").as_slice()) {
        Some("Jetson Thor".to_owned())
    } else {
        None
    }
}

/// The architecture label of one version string, where known.
fn arch_lookup(c: &str) -> (r: Option<String>)
    ensures
        match arch_for(c@) {
            Some(a) => r matches Some(s) && s@ == a,
            None => r is None,
        },
{
    let cv = chars_of(c);
    let l = lower_all(cv.as_slice());
    if contains(l.as_slice(), chars_of("tegra264").as_slice()) {
        Some("Thor (tegra264)".to_owned())
    } else if contains(l.as_slice(), chars_of("tegra234").as_slice()) {
        Some("Orin (tegra234)".to_owned())
    } else if contains(l.as_slice(), chars_of("tegra194").as_slice()) {
        Some("Xavier (tegra194)".to_owned())
    } else if contains(l.as_slice(), chars_of("tegra186").as_slice()) {
        Some("TX2 (tegra186)".to_owned())
    } else if contains(l.as_slice(), chars_of("tegra210").as_slice()) {
        Some("TX1 (tegra210)".to_owned())
    } else {
        None
    }
}

/// Detect the chip architecture: the model field first, then the
/// compatible identifiers, else "Unknown".
pub fn detect_architecture(fs: &FsView) -> (r: String)
    ensures
        r@ == {
            let from_model = match fs.file_at(model_path()) {
                Some(c) => arch_for(c),
                None => None,
            };
            match from_model {
                Some(a) => a,
                None => match fs.file_at(compatible_path()) {
                    Some(c) => match arch_for(c) {
                        Some(a) => a,
                        None => "Unknown"@,
                    },
                    None => "Unknown"@,
                },
            }
        },
{
    let mp = chars_of("/sys/firmware/devicetree/base/model");
    match fs.read(mp.as_slice()) {
        Some(c) => {
            match arch_lookup(c.as_str()) {
                Some(a) => {
                    return a;
                }
                None => {}
            }
        }
        None => {}
    }
    let cp = chars_of("/sys/firmware/devicetree/base/compatible");
    match fs.read(cp.as_slice()) {
        Some(c) => match arch_lookup(c.as_str()) {
            Some(a) => a,
            None => "Unknown".to_owned(),
        },
        None => "Unknown".to_owned(),
    }
}

/// Is this board one of the supported family at all? Either the release
/// file or the fuse driver module betrays it.
pub fn is_jetson(fs: &FsView) -> (r: bool)
    ensures
        r == (fs.has("/etc/nv_tegra_release"@) || fs.has("/sys/module/tegra_fuse"@) || fs.dir_at(
            "/sys/module/tegra_fuse"@,
        ) is Some),
{
    let rel = chars_of("/etc/nv_tegra_release");
    let fuse = chars_of("/sys/module/tegra_fuse");
    fs.path_exists(rel.as_slice()) || fs.path_exists(fuse.as_slice()) || fs.list(
        fuse.as_slice(),
    ).is_some()
}

/// The value of the last release-file line assigning `key`, trimmed.
pub open spec fn last_eq_value(ls: Seq<Seq<char>>, key: Seq<char>) -> Option<Seq<char>>
    decreases ls.len(),
{
    if ls.len() == 0 {
        None
    } else {
        match eq_split(ls.last()) {
            Some(kv) => if kv.0 == key {
                Some(kv.1)
            } else {
                last_eq_value(ls.drop_last(), key)
            },
            None => last_eq_value(ls.drop_last(), key),
        }
    }
}

/// The board name of the first comment line carrying one; lines that
/// hold an assignment are not comments here.
pub open spec fn first_comment_board(ls: Seq<Seq<char>>) -> Option<Seq<char>>
    decreases ls.len(),
{
    if ls.len() == 0 {
        None
    } else if eq_split(ls[0]) is None && matches_at(ls[0], "#"@, 0) && board_from_comment_spec(
        ls[0],
    ) is Some {
        board_from_comment_spec(ls[0])
    } else {
        first_comment_board(ls.drop_first())
    }
}

/// The model the release file announces: the last assignment wins over
/// any comment; a comment only fills an otherwise empty slot.
pub open spec fn release_model(ls: Seq<Seq<char>>) -> Seq<char> {
    match last_eq_value(ls, "BOARD"@) {
        Some(v) => v,
        None => match first_comment_board(ls) {
            Some(b) => b,
            None => "Unknown Jetson Board"@,
        },
    }
}

/// The serial the release file announces.
pub open spec fn release_serial(ls: Seq<Seq<char>>) -> Seq<char> {
    match last_eq_value(ls, "SERIAL_NUMBER"@) {
        Some(v) => v,
        None => "Unknown"@,
    }
}

/// A model value still counting as unknown: the placeholder or nothing.
pub open spec fn model_unknown(m: Seq<char>) -> bool {
    m == "Unknown Jetson Board"@ || m.len() == 0
}

/// A serial value still counting as unknown.
pub open spec fn serial_unknown(s: Seq<char>) -> bool {
    s == "Unknown"@ || s.len() == 0
}

/// The fully merged board identity: release file first, device-tree
/// fields for whatever is still unknown, compatible-identifier
/// heuristics last; the release label derived from the low-level
/// version where none was given explicitly.
pub open spec fn board_model_spec(fs: &FsView) -> (Seq<char>, Seq<char>, Seq<char>, Seq<char>) {
    let (model0, jp0, l4t, serial0) = match fs.file_at("/etc/nv_tegra_release"@) {
        Some(c) => {
            let ls = lines_spec(c);
            (release_model(ls), jetpack_version_spec(ls), l4t_version_spec(ls), release_serial(ls))
        },
        None => ("Unknown Jetson Board"@, "Unknown"@, "Unknown"@, "Unknown"@),
    };
    let jp1 = if (jp0.len() == 0 || jp0 == "Unknown"@) && l4t.len() > 0 {
        match jetpack_key_of(l4t) {
            Some(key) => jetpack_for_key(key),
            None => "Unknown"@,
        }
    } else {
        jp0
    };
    let model1 = if model_unknown(model0) {
        dt_string_of(fs, model_path(), "Unknown Jetson Board"@)
    } else {
        model0
    };
    let model2 = if model_unknown(model1) {
        match fs.file_at(compatible_path()) {
            Some(c) => match model_from_pieces(sep_split_spec(c, '\u{0}')) {
                Some(m) => m,
                None => "Unknown Jetson Board"@,
            },
            None => "Unknown Jetson Board"@,
        }
    } else {
        model1
    };
    let serial1 = if serial_unknown(serial0) {
        dt_string_of(fs, serial_path(), "Unknown"@)
    } else {
        serial0
    };
    (model2, jp1, l4t, serial1)
}

/// Detect the merged board identity from every available source.
#[verifier::rlimit(100)]
pub fn detect_board(fs: &FsView) -> (r: BoardInfo)
    ensures
        (r.model@, r.jetpack@, r.l4t@, r.serial@) == board_model_spec(fs),
{
    let rel = chars_of("/etc/nv_tegra_release");
    let (model0, jp0, l4t, serial0): (String, String, String, String) = match fs.read(
        rel.as_slice(),
    ) {
        Some(c) => {
            let m = release_model_exec(c.as_str());
            let jp = parse_jetpack_version(c.as_str());
            let lv = parse_l4t_version(c.as_str());
            let sn = release_serial_exec(c.as_str());
            (m, jp, lv, sn)
        }
        None => (
            "Unknown Jetson Board".to_owned(),
            "Unknown".to_owned(),
            "Unknown".to_owned(),
            "Unknown".to_owned(),
        ),
    };
    let jp_chars = chars_of(jp0.as_str());
    let l4t_len = l4t.as_str().unicode_len();
    let jp1: String = if (jp_chars.len() == 0 || chars_eq(
        jp_chars.as_slice(),
        chars_of("Unknown").as_slice(),
    )) && l4t_len > 0 {
        derive_jetpack_from_l4t(l4t.as_str())
    } else {
        jp0
    };
    let model_chars = chars_of(model0.as_str());
    let model1: String = if model_chars.len() == 0 || chars_eq(
        model_chars.as_slice(),
        chars_of("Unknown Jetson Board").as_slice(),
    ) {
        detect_board_model(fs)
    } else {
        model0
    };
    let model1_chars = chars_of(model1.as_str());
    let model2: String = if model1_chars.len() == 0 || chars_eq(
        model1_chars.as_slice(),
        chars_of("Unknown Jetson Board").as_slice(),
    ) {
        detect_model_from_compatible(fs)
    } else {
        model1
    };
    let serial_chars = chars_of(serial0.as_str());
    let serial1: String = if serial_chars.len() == 0 || chars_eq(
        serial_chars.as_slice(),
        chars_of("Unknown").as_slice(),
    ) {
        detect_serial_number(fs)
    } else {
        serial0
    };
    BoardInfo { model: model2, jetpack: jp1, l4t, serial: serial1 }
}

/// The trimmed value of the line `cv[sa..se]`, where that line is an
/// assignment of `key`; `None` where it is no assignment or another
/// key's.
fn eq_value_at(content: &str, cv: &[char], sa: usize, se: usize, key: &[char]) -> (r: Option<
    String,
>)
    requires
        cv@ == content@,
        sa <= se <= cv@.len(),
    ensures
        ({
            let l = cv@.subrange(sa as int, se as int);
            match eq_split(l) {
                Some(kv) => if kv.0 == key@ {
                    r matches Some(v) && v@ == kv.1
                } else {
                    r is None
                },
                None => r is None,
            }
        }),
{
    let ghost l = cv@.subrange(sa as int, se as int);
    let lv = &cv[sa..se];
    match crate::text::split_once_at(lv, '=') {
        Some((ci, vi)) => {
            let keyc = crate::text::trim_copy(&lv[0..ci]);
            proof {
                assert(lv@.subrange(0, ci as int) =~= l.subrange(0, ci as int));
            }
            if chars_eq(keyc.as_slice(), key) {
                let ln: usize = se - sa;
                let piece = &lv[vi..ln];
                let ghost piecev = piece@;
                let (a, b) = crate::text::trim_bounds(piece);
                let r = content.substring_char(sa + vi + a, sa + vi + b).to_owned();
                proof {
                    assert(piecev =~= l.subrange(ci + 1, l.len() as int));
                    assert(r@ =~= piecev.subrange(a as int, b as int));
                    assert(r@ == trimmed(piecev));
                }
                Some(r)
            } else {
                None
            }
        }
        None => None,
    }
}

/// The release-file model, by forward scan with the last assignment
/// winning.
#[verifier::rlimit(100)]
fn release_model_exec(content: &str) -> (r: String)
    ensures
        r@ == release_model(lines_spec(content@)),
{
    let cv = chars_of(content);
    let spans = crate::text::line_spans(cv.as_slice());
    let ghost lsv = lines_spec(content@);
    let n: usize = spans.len();
    let key_pat = chars_of("BOARD");
    let hash_pat = chars_of("#");
    let mut last_model: Option<String> = None;
    let mut comment_model: Option<String> = None;
    let mut k: usize = n;
    proof {
        assert(lsv.take(n as int) =~= lsv);
    }
    // scan from the end: the first assignment found this way is the
    // last in the file; comments are considered front to back below
    while k > 0
        invariant
            n == spans@.len(),
            cv@ == content@,
            lsv == lines_spec(content@),
            spans@.map_values(|p: (usize, usize)| cv@.subrange(p.0 as int, p.1 as int)) == lsv,
            forall|j: int|
                0 <= j < n ==> (#[trigger] spans@[j]).0 <= spans@[j].1 && spans@[j].1 <= cv@.len(),
            k <= n,
            key_pat@ == "BOARD"@,
            last_eq_value(lsv, "BOARD"@) == last_eq_value(lsv.take(k as int), "BOARD"@),
        decreases k,
    {
        k -= 1;
        proof {
            assert(lsv.take(k as int + 1).drop_last() =~= lsv.take(k as int));
            assert(lsv.take(k as int + 1).last() == lsv[k as int]);
            assert(lsv[k as int] == cv@.subrange(spans@[k as int].0 as int, spans@[k as int].1 as int));
        }
        let (sa, se) = (spans[k].0, spans[k].1);
        match eq_value_at(content, cv.as_slice(), sa, se, key_pat.as_slice()) {
            Some(r) => {
                proof {
                    assert(last_eq_value(lsv, "BOARD"@) == Some(r@));
                }
                return r;
            }
            None => {}
        }
    }
    proof {
        assert(lsv.take(0) =~= Seq::<Seq<char>>::empty());
        assert(last_eq_value(lsv, "BOARD"@) is None);
    }
    // no assignment: the first comment-carried board name fills in
    let mut k2: usize = 0;
    proof {
        assert(lsv.skip(0) =~= lsv);
    }
    while k2 < n
        invariant
            n == spans@.len(),
            cv@ == content@,
            lsv == lines_spec(content@),
            spans@.map_values(|p: (usize, usize)| cv@.subrange(p.0 as int, p.1 as int)) == lsv,
            forall|j: int|
                0 <= j < n ==> (#[trigger] spans@[j]).0 <= spans@[j].1 && spans@[j].1 <= cv@.len(),
            k2 <= n,
            hash_pat@ == "#"@,
            last_eq_value(lsv, "BOARD"@) is None,
            first_comment_board(lsv) == first_comment_board(lsv.skip(k2 as int)),
        decreases n - k2,
    {
        proof {
            assert(lsv.skip(k2 as int).drop_first() =~= lsv.skip(k2 as int + 1));
            assert(lsv.skip(k2 as int)[0] == lsv[k2 as int]);
            assert(lsv[k2 as int] == cv@.subrange(
                spans@[k2 as int].0 as int,
                spans@[k2 as int].1 as int,
            ));
        }
        let (sa, se) = (spans[k2].0, spans[k2].1);
        let lv = &cv.as_slice()[sa..se];
        match crate::text::split_once_at(lv, '=') {
            Some(_) => {}
            None => {
                if crate::text::starts_with(lv, hash_pat.as_slice()) {
                    let line_str = content.substring_char(sa, se);
                    proof {
                        assert(line_str@ == lsv[k2 as int]);
                        assert(eq_split(lsv[k2 as int]) is None);
                    }
                    match parse_board_from_comment(line_str) {
                        Some(b) => {
                            proof {
                                assert(board_from_comment_spec(lsv[k2 as int]) == Some(b@));
                                assert(first_comment_board(lsv.skip(k2 as int)) == Some(b@));
                                assert(first_comment_board(lsv) == Some(b@));
                            }
                            return b;
                        }
                        None => {}
                    }
                }
            }
        }
        k2 += 1;
    }
    proof {
        assert(lsv.skip(n as int) =~= Seq::<Seq<char>>::empty());
    }
    "Unknown Jetson Board".to_owned()
}

/// The release-file serial, the last assignment winning.
#[verifier::rlimit(100)]
fn release_serial_exec(content: &str) -> (r: String)
    ensures
        r@ == release_serial(lines_spec(content@)),
{
    let cv = chars_of(content);
    let spans = crate::text::line_spans(cv.as_slice());
    let ghost lsv = lines_spec(content@);
    let n: usize = spans.len();
    let key_pat = chars_of("SERIAL_NUMBER");
    let mut k: usize = n;
    proof {
        assert(lsv.take(n as int) =~= lsv);
    }
    while k > 0
        invariant
            n == spans@.len(),
            cv@ == content@,
            lsv == lines_spec(content@),
            spans@.map_values(|p: (usize, usize)| cv@.subrange(p.0 as int, p.1 as int)) == lsv,
            forall|j: int|
                0 <= j < n ==> (#[trigger] spans@[j]).0 <= spans@[j].1 && spans@[j].1 <= cv@.len(),
            k <= n,
            key_pat@ == "SERIAL_NUMBER"@,
            last_eq_value(lsv, "SERIAL_NUMBER"@) == last_eq_value(lsv.take(k as int), "SERIAL_NUMBER"@),
        decreases k,
    {
        k -= 1;
        proof {
            assert(lsv.take(k as int + 1).drop_last() =~= lsv.take(k as int));
            assert(lsv.take(k as int + 1).last() == lsv[k as int]);
            assert(lsv[k as int] == cv@.subrange(spans@[k as int].0 as int, spans@[k as int].1 as int));
        }
        let (sa, se) = (spans[k].0, spans[k].1);
        match eq_value_at(content, cv.as_slice(), sa, se, key_pat.as_slice()) {
            Some(r) => {
                proof {
                    assert(last_eq_value(lsv, "SERIAL_NUMBER"@) == Some(r@));
                }
                return r;
            }
            None => {}
        }
    }
    proof {
        assert(lsv.take(0) =~= Seq::<Seq<char>>::empty());
    }
    "Unknown".to_owned()
}

/// The table lookup itself.
#[verifier::rlimit(60)]
fn lookup_jetpack(kc: &[char]) -> (r: String)
    ensures
        r@ == jetpack_for_key(kc@),
{
    if chars_eq(kc, chars_of("38.4.4").as_slice()) {
        "7.1".to_owned()
    } else if chars_eq(kc, chars_of("38.4.3").as_slice()) {
        "7.1".to_owned()
    } else if chars_eq(kc, chars_of("38.4.2").as_slice()) {
        "7.1".to_owned()
    } else if chars_eq(kc, chars_of("38.4.1").as_slice()) {
        "7.1".to_owned()
    } else if chars_eq(kc, chars_of("38.4").as_slice()) {
        "7.1".to_owned()
    } else if chars_eq(kc, chars_of("38.2.1").as_slice()) {
        "7.0".to_owned()
    } else if chars_eq(kc, chars_of("38.2").as_slice()) {
        "7.0".to_owned()
    } else if chars_eq(kc, chars_of("38.1").as_slice()) {
        "7.0".to_owned()
    } else if chars_eq(kc, chars_of("38.0").as_slice()) {
        "7.0".to_owned()
    } else if chars_eq(kc, chars_of("36.4.7").as_slice()) {
        "6.2.1".to_owned()
    } else if chars_eq(kc, chars_of("36.4.6").as_slice()) {
        "6.2.1".to_owned()
    } else if chars_eq(kc, chars_of("36.4.5").as_slice()) {
        "6.2.1".to_owned()
    } else if chars_eq(kc, chars_of("36.4.4").as_slice()) {
        "6.2.1".to_owned()
    } else if chars_eq(kc, chars_of("36.4.3").as_slice()) {
        "6.2".to_owned()
    } else if chars_eq(kc, chars_of("36.4.2").as_slice()) {
        "6.2".to_owned()
    } else if chars_eq(kc, chars_of("36.4.1").as_slice()) {
        "6.2".to_owned()
    } else if chars_eq(kc, chars_of("36.4").as_slice()) {
        "6.1".to_owned()
    } else if chars_eq(kc, chars_of("36.3").as_slice()) {
        "6.0".to_owned()
    } else if chars_eq(kc, chars_of("36.2").as_slice()) {
        "6.0 DP".to_owned()
    } else if chars_eq(kc, chars_of("36.1").as_slice()) {
        "6.0".to_owned()
    } else if chars_eq(kc, chars_of("36.0").as_slice()) {
        "6.0".to_owned()
    } else if chars_eq(kc, chars_of("35.6.2").as_slice()) {
        "5.1.5".to_owned()
    } else if chars_eq(kc, chars_of("35.6.1").as_slice()) {
        "5.1.5".to_owned()
    } else if chars_eq(kc, chars_of("35.6").as_slice()) {
        "5.1.4".to_owned()
    } else if chars_eq(kc, chars_of("35.5").as_slice()) {
        "5.1.3".to_owned()
    } else if chars_eq(kc, chars_of("35.4.1").as_slice()) {
        "5.1.2".to_owned()
    } else if chars_eq(kc, chars_of("35.4").as_slice()) {
        "5.1.2".to_owned()
    } else if chars_eq(kc, chars_of("35.3.1").as_slice()) {
        "5.1.1".to_owned()
    } else if chars_eq(kc, chars_of("35.3").as_slice()) {
        "5.1.1".to_owned()
    } else if chars_eq(kc, chars_of("35.2.1").as_slice()) {
        "5.1".to_owned()
    } else if chars_eq(kc, chars_of("35.2").as_slice()) {
        "5.1".to_owned()
    } else if chars_eq(kc, chars_of("35.1").as_slice()) {
        "5.1".to_owned()
    } else if chars_eq(kc, chars_of("35.0").as_slice()) {
        "5.1".to_owned()
    } else if chars_eq(kc, chars_of("34.1.1").as_slice()) {
        "5.0.1 DP".to_owned()
    } else if chars_eq(kc, chars_of("34.1").as_slice()) {
        "5.0 DP".to_owned()
    } else if chars_eq(kc, chars_of("34.0").as_slice()) {
        "5.0 DP".to_owned()
    } else if chars_eq(kc, chars_of("32.7.6").as_slice()) {
        "4.6.6".to_owned()
    } else if chars_eq(kc, chars_of("32.7.5").as_slice()) {
        "4.6.5".to_owned()
    } else if chars_eq(kc, chars_of("32.7.4").as_slice()) {
        "4.6.4".to_owned()
    } else if chars_eq(kc, chars_of("32.7.3").as_slice()) {
        "4.6.3".to_owned()
    } else if chars_eq(kc, chars_of("32.7.2").as_slice()) {
        "4.6.2".to_owned()
    } else if chars_eq(kc, chars_of("32.7.1").as_slice()) {
        "4.6.1".to_owned()
    } else if chars_eq(kc, chars_of("32.7").as_slice()) {
        "4.6.x".to_owned()
    } else if chars_eq(kc, chars_of("32.6.1").as_slice()) {
        "4.6".to_owned()
    } else if chars_eq(kc, chars_of("32.6").as_slice()) {
        "4.6".to_owned()
    } else if chars_eq(kc, chars_of("32.5.1").as_slice()) {
        "4.5.1".to_owned()
    } else if chars_eq(kc, chars_of("32.5").as_slice()) {
        "4.5".to_owned()
    } else if chars_eq(kc, chars_of("32.4.4").as_slice()) {
        "4.4.1".to_owned()
    } else if chars_eq(kc, chars_of("32.4.3").as_slice()) {
        "4.4".to_owned()
    } else if chars_eq(kc, chars_of("32.4.2").as_slice()) {
        "4.4 DP".to_owned()
    } else if chars_eq(kc, chars_of("32.4").as_slice()) {
        "4.4".to_owned()
    } else if chars_eq(kc, chars_of("32.3.1").as_slice()) {
        "4.3".to_owned()
    } else if chars_eq(kc, chars_of("32.3").as_slice()) {
        "4.3".to_owned()
    } else if chars_eq(kc, chars_of("32.2.1").as_slice()) {
        "4.2.3".to_owned()
    } else if chars_eq(kc, chars_of("32.2").as_slice()) {
        "4.2.2".to_owned()
    } else if chars_eq(kc, chars_of("32.1.1").as_slice()) {
        "4.1.1 DP".to_owned()
    } else if chars_eq(kc, chars_of("32.1").as_slice()) {
        "4.1".to_owned()
    } else if chars_eq(kc, chars_of("31.1").as_slice()) {
        "4.1 DP".to_owned()
    } else if chars_eq(kc, chars_of("31.0").as_slice()) {
        "4.1 DP".to_owned()
    } else if chars_eq(kc, chars_of("28.5").as_slice()) {
        "3.3.4".to_owned()
    } else if chars_eq(kc, chars_of("28.4").as_slice()) {
        "3.3.3".to_owned()
    } else if chars_eq(kc, chars_of("28.3.2").as_slice()) {
        "3.3.2".to_owned()
    } else if chars_eq(kc, chars_of("28.3.1").as_slice()) {
        "3.3.1".to_owned()
    } else if chars_eq(kc, chars_of("28.3").as_slice()) {
        "3.3.2".to_owned()
    } else if chars_eq(kc, chars_of("28.2.1").as_slice()) {
        "3.3".to_owned()
    } else if chars_eq(kc, chars_of("28.2").as_slice()) {
        "3.2.1".to_owned()
    } else if chars_eq(kc, chars_of("27.1").as_slice()) {
        "3.0".to_owned()
    } else if chars_eq(kc, chars_of("26.0").as_slice()) {
        "3.0".to_owned()
    } else if chars_eq(kc, chars_of("25.0").as_slice()) {
        "3.0".to_owned()
    } else if chars_eq(kc, chars_of("24.2.1").as_slice()) {
        "2.3.1".to_owned()
    } else if chars_eq(kc, chars_of("24.1").as_slice()) {
        "2.3".to_owned()
    } else if chars_eq(kc, chars_of("23.0").as_slice()) {
        "2.3".to_owned()
    } else if chars_eq(kc, chars_of("22.0").as_slice()) {
        "2.3".to_owned()
    } else if chars_eq(kc, chars_of("21.5").as_slice()) {
        "2.3.1".to_owned()
    } else if chars_eq(kc, chars_of("21.0").as_slice()) {
        "2.3".to_owned()
    } else {
        "Unknown".to_owned()
    }
}

} // verus!
