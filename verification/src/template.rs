//! File name templates and the variables that may stand in them.
use vstd::prelude::*;

use crate::platform;
use crate::platform::{get_arch, get_archive_ext, get_exe_suffix, get_os, Platform};
use crate::text;
use crate::text::replace_all;

verus! {

/// A template variable.
pub enum Var {
    Version,
    Os,
    Arch,
    Target,
    Exe,
    Ext,
}

/// How a template writes the variable.
pub open spec fn marker(v: Var) -> Seq<char> {
    match v {
        Var::Version => "{VERSION}"@,
        Var::Os => "{OS}"@,
        Var::Arch => "{ARCH}"@,
        Var::Target => "{TARGET}"@,
        Var::Exe => "{EXE}"@,
        Var::Ext => "{EXT}"@,
    }
}

/// What the variable stands for.
pub open spec fn value(v: Var, version: Seq<char>, p: Platform) -> Seq<char> {
    match v {
        Var::Version => version,
        Var::Os => platform::os_name(p.os@),
        Var::Arch => platform::arch_name(p.arch@),
        Var::Target => p.target@,
        Var::Exe => platform::exe_suffix(p.windows),
        Var::Ext => platform::archive_ext(p.windows),
    }
}

/// `template` with one variable replaced by its value.
pub open spec fn with_value(template: Seq<char>, v: Var, version: Seq<char>, p: Platform) -> Seq<
    char,
> {
    text::replaced(template, marker(v), value(v, version, p))
}

/// `template` with the variables replaced by their values, one after the other.
pub open spec fn expanded(template: Seq<char>, version: Seq<char>, p: Platform) -> Seq<char> {
    let s = with_value(template, Var::Version, version, p);
    let s = with_value(s, Var::Os, version, p);
    let s = with_value(s, Var::Arch, version, p);
    let s = with_value(s, Var::Target, version, p);
    let s = with_value(s, Var::Exe, version, p);
    with_value(s, Var::Ext, version, p)
}

/// Replaces the variables of a template by their values.
pub fn expand_template(template: &str, version: &str, platform: &Platform) -> (r: String)
    ensures
        r@ == expanded(template@, version@, *platform),
{
    let s: String = replace_all(template, "{VERSION}", version);
    let s: String = replace_all(s.as_str(), "{OS}", get_os(platform.os.as_str()).as_str());
    let s: String = replace_all(s.as_str(), "{ARCH}", get_arch(platform.arch.as_str()).as_str());
    let s: String = replace_all(s.as_str(), "{TARGET}", platform.target.as_str());
    let s: String = replace_all(s.as_str(), "{EXE}", get_exe_suffix(platform.windows));
    replace_all(s.as_str(), "{EXT}", get_archive_ext(platform.windows))
}

/// A part of a template: text to keep, or a variable.
pub enum Piece {
    Text(Seq<char>),
    Mark(Var),
}

/// `s` holds no opening brace.
pub open spec fn brace_free(s: Seq<char>) -> bool {
    forall|i: int| 0 <= i < s.len() ==> #[trigger] s[i] != '{'
}

/// The text pieces hold no opening brace.
pub open spec fn well_formed(pieces: Seq<Piece>) -> bool {
    forall|i: int|
        0 <= i < pieces.len() ==> (#[trigger] pieces[i] matches Piece::Text(t) ==> brace_free(t))
}

/// How a template writes the piece.
pub open spec fn piece_text(piece: Piece) -> Seq<char> {
    match piece {
        Piece::Text(t) => t,
        Piece::Mark(v) => marker(v),
    }
}

/// The template that the pieces make up.
pub open spec fn written(pieces: Seq<Piece>) -> Seq<char>
    decreases pieces.len(),
{
    if pieces.len() == 0 {
        Seq::empty()
    } else {
        piece_text(pieces[0]) + written(pieces.skip(1))
    }
}

/// The pieces with the texts kept and the variables replaced by their values.
pub open spec fn filled(pieces: Seq<Piece>, version: Seq<char>, p: Platform) -> Seq<char>
    decreases pieces.len(),
{
    if pieces.len() == 0 {
        Seq::empty()
    } else {
        (match pieces[0] {
            Piece::Text(t) => t,
            Piece::Mark(v) => value(v, version, p),
        }) + filled(pieces.skip(1), version, p)
    }
}

/// The pieces with the variable `v` turned into the text `with`.
spec fn settled(pieces: Seq<Piece>, v: Var, with: Seq<char>) -> Seq<Piece> {
    pieces.map_values(
        |piece: Piece|
            if piece == Piece::Mark(v) {
                Piece::Text(with)
            } else {
                piece
            },
    )
}

/// The markers begin with their only opening brace.
proof fn marker_shape(v: Var)
    ensures
        marker(v).len() >= 4,
        marker(v)[0] == '{',
        brace_free(marker(v).skip(1)),
{
    reveal_strlit("{VERSION}");
    reveal_strlit("{OS}");
    reveal_strlit("{ARCH}");
    reveal_strlit("{TARGET}");
    reveal_strlit("{EXE}");
    reveal_strlit("{EXT}");
}

/// No marker begins another one.
proof fn markers_differ(a: Var, b: Var, rest: Seq<char>)
    requires
        a != b,
    ensures
        !text::occurs_at(marker(a) + rest, marker(b), 0),
{
    reveal_strlit("{VERSION}");
    reveal_strlit("{OS}");
    reveal_strlit("{ARCH}");
    reveal_strlit("{TARGET}");
    reveal_strlit("{EXE}");
    reveal_strlit("{EXT}");
    let s = marker(a) + rest;
    if text::occurs_at(s, marker(b), 0) {
        let head = s.subrange(0, marker(b).len() as int);
        assert(head[1] == marker(a)[1]);
        assert(head[3] == marker(a)[3]);
        assert(false);
    }
}

/// Replacing skips over text that holds no opening brace.
proof fn replaced_skips(t: Seq<char>, rest: Seq<char>, pat: Seq<char>, with: Seq<char>)
    requires
        brace_free(t),
        pat.len() > 0,
        pat[0] == '{',
    ensures
        text::replaced(t + rest, pat, with) == t + text::replaced(rest, pat, with),
    decreases t.len(),
{
    if t.len() == 0 {
        assert(t + rest =~= rest);
        assert(t + text::replaced(rest, pat, with) =~= text::replaced(rest, pat, with));
    } else {
        let s = t + rest;
        if text::occurs_at(s, pat, 0) {
            assert(s.subrange(0, pat.len() as int)[0] == t[0]);
            assert(false);
        }
        assert(s.skip(1) =~= t.skip(1) + rest);
        assert(brace_free(t.skip(1)));
        replaced_skips(t.skip(1), rest, pat, with);
        assert(seq![t[0]] + (t.skip(1) + text::replaced(rest, pat, with)) =~= t + text::replaced(
            rest,
            pat,
            with,
        ));
    }
}

/// Replacing one variable in a template settles it in the pieces.
proof fn replaced_settles(pieces: Seq<Piece>, v: Var, with: Seq<char>)
    requires
        well_formed(pieces),
    ensures
        text::replaced(written(pieces), marker(v), with) == written(settled(pieces, v, with)),
    decreases pieces.len(),
{
    marker_shape(v);
    if pieces.len() > 0 {
        let tail = pieces.skip(1);
        let rest = written(tail);
        assert forall|i: int| 0 <= i < tail.len() implies (#[trigger] tail[i] matches Piece::Text(
            t,
        ) ==> brace_free(t)) by {
            assert(tail[i] == pieces[i + 1]);
        }
        replaced_settles(tail, v, with);
        assert(settled(pieces, v, with).skip(1) =~= settled(tail, v, with));
        match pieces[0] {
            Piece::Text(t) => {
                replaced_skips(t, rest, marker(v), with);
            },
            Piece::Mark(w) => {
                let s = marker(w) + rest;
                if w == v {
                    assert(s.subrange(0, marker(v).len() as int) =~= marker(v));
                    assert(s.skip(marker(v).len() as int) =~= rest);
                } else {
                    marker_shape(w);
                    markers_differ(w, v, rest);
                    assert(s.skip(1) =~= marker(w).skip(1) + rest);
                    replaced_skips(marker(w).skip(1), rest, marker(v), with);
                    assert(seq![s[0]] + (marker(w).skip(1) + text::replaced(rest, marker(v), with))
                        =~= marker(w) + text::replaced(rest, marker(v), with));
                }
            },
        }
    }
}

/// Settling a variable keeps pieces well formed where its value holds no
/// opening brace.
proof fn settled_well_formed(pieces: Seq<Piece>, v: Var, with: Seq<char>)
    requires
        well_formed(pieces),
        brace_free(with),
    ensures
        well_formed(settled(pieces, v, with)),
{
    let after = settled(pieces, v, with);
    assert forall|i: int| 0 <= i < after.len() implies (#[trigger] after[i] matches Piece::Text(t)
        ==> brace_free(t)) by {
        assert(pieces[i] == pieces[i]);
    }
}

/// Settling a variable with its value does not change what the pieces fill to.
proof fn settled_fills(pieces: Seq<Piece>, v: Var, version: Seq<char>, p: Platform)
    ensures
        filled(settled(pieces, v, value(v, version, p)), version, p) == filled(pieces, version, p),
    decreases pieces.len(),
{
    if pieces.len() > 0 {
        settled_fills(pieces.skip(1), v, version, p);
        assert(settled(pieces, v, value(v, version, p)).skip(1) =~= settled(
            pieces.skip(1),
            v,
            value(v, version, p),
        ));
    }
}

/// Pieces without a variable write what they fill to.
proof fn texts_are_filled(pieces: Seq<Piece>, version: Seq<char>, p: Platform)
    requires
        forall|i: int| 0 <= i < pieces.len() ==> (#[trigger] pieces[i]) is Text,
    ensures
        written(pieces) == filled(pieces, version, p),
    decreases pieces.len(),
{
    if pieces.len() > 0 {
        let tail = pieces.skip(1);
        assert forall|i: int| 0 <= i < tail.len() implies (#[trigger] tail[i]) is Text by {
            assert(tail[i] == pieces[i + 1]);
        }
        texts_are_filled(tail, version, p);
    }
}

/// One step of the expansion.
proof fn expansion_step(pieces: Seq<Piece>, v: Var, version: Seq<char>, p: Platform) -> (after: Seq<
    Piece,
>)
    requires
        well_formed(pieces),
        brace_free(value(v, version, p)),
    ensures
        after == settled(pieces, v, value(v, version, p)),
        well_formed(after),
        with_value(written(pieces), v, version, p) == written(after),
        filled(after, version, p) == filled(pieces, version, p),
{
    replaced_settles(pieces, v, value(v, version, p));
    settled_well_formed(pieces, v, value(v, version, p));
    settled_fills(pieces, v, version, p);
    settled(pieces, v, value(v, version, p))
}

/// No value of a variable other than the version holds an opening brace, where
/// the names of the machine hold none.
pub open spec fn plain_platform(p: Platform) -> bool {
    brace_free(p.os@) && brace_free(p.arch@) && brace_free(p.target@)
}

/// A template expands to its texts, unchanged and in order, with the value of
/// each variable in the variable's place: whatever text, version and machine
/// names without an opening brace are given.
pub proof fn expansion_fills_the_pieces(pieces: Seq<Piece>, version: Seq<char>, p: Platform)
    requires
        well_formed(pieces),
        brace_free(version),
        plain_platform(p),
    ensures
        expanded(written(pieces), version, p) == filled(pieces, version, p),
{
    reveal_strlit("darwin");
    reveal_strlit("amd64");
    reveal_strlit("arm64");
    reveal_strlit(".exe");
    reveal_strlit("");
    reveal_strlit("zip");
    reveal_strlit("tar.gz");
    let p1 = expansion_step(pieces, Var::Version, version, p);
    let p2 = expansion_step(p1, Var::Os, version, p);
    let p3 = expansion_step(p2, Var::Arch, version, p);
    let p4 = expansion_step(p3, Var::Target, version, p);
    let p5 = expansion_step(p4, Var::Exe, version, p);
    let p6 = expansion_step(p5, Var::Ext, version, p);
    assert forall|i: int| 0 <= i < p6.len() implies (#[trigger] p6[i]) is Text by {
        match pieces[i] {
            Piece::Mark(Var::Version) => {
                assert(p1[i] is Text);
            },
            _ => {},
        }
        assert(p2[i] is Text || pieces[i] == p2[i]);
        assert(p3[i] is Text || pieces[i] == p3[i]);
        assert(p4[i] is Text || pieces[i] == p4[i]);
        assert(p5[i] is Text || pieces[i] == p5[i]);
    }
    texts_are_filled(p6, version, p);
}

/// Under the same conditions the expansion holds no opening brace, and so no
/// variable that was left as it stood.
pub proof fn expansion_of_pieces_is_plain(pieces: Seq<Piece>, version: Seq<char>, p: Platform)
    requires
        well_formed(pieces),
        brace_free(version),
        plain_platform(p),
    ensures
        brace_free(expanded(written(pieces), version, p)),
        forall|v: Var| !text::contains(expanded(written(pieces), version, p), #[trigger] marker(v)),
{
    expansion_fills_the_pieces(pieces, version, p);
    filled_is_plain(pieces, version, p);
    let s = expanded(written(pieces), version, p);
    assert forall|v: Var| !text::contains(s, #[trigger] marker(v)) by {
        marker_shape(v);
        if text::contains(s, marker(v)) {
            let i = choose|i: int| text::occurs_at(s, marker(v), i);
            assert(s.subrange(i, i + marker(v).len())[0] == s[i]);
        }
    }
}

proof fn filled_is_plain(pieces: Seq<Piece>, version: Seq<char>, p: Platform)
    requires
        well_formed(pieces),
        brace_free(version),
        plain_platform(p),
    ensures
        brace_free(filled(pieces, version, p)),
    decreases pieces.len(),
{
    reveal_strlit("darwin");
    reveal_strlit("amd64");
    reveal_strlit("arm64");
    reveal_strlit(".exe");
    reveal_strlit("");
    reveal_strlit("zip");
    reveal_strlit("tar.gz");
    if pieces.len() > 0 {
        let tail = pieces.skip(1);
        assert forall|i: int| 0 <= i < tail.len() implies (#[trigger] tail[i] matches Piece::Text(
            t,
        ) ==> brace_free(t)) by {
            assert(tail[i] == pieces[i + 1]);
        }
        filled_is_plain(tail, version, p);
        assert(brace_free(piece_text(pieces[0])) || pieces[0] is Mark);
    }
}

/// Replacing what does not occur changes nothing.
proof fn replaced_absent(s: Seq<char>, pat: Seq<char>, with: Seq<char>)
    requires
        !text::contains(s, pat),
    ensures
        text::replaced(s, pat, with) == s,
    decreases s.len(),
{
    if pat.len() > 0 && s.len() > 0 {
        assert(!text::occurs_at(s, pat, 0));
        absent_from_rest(s, pat, 1);
        replaced_absent(s.skip(1), pat, with);
        assert(seq![s[0]] + s.skip(1) =~= s);
    }
}

/// What does not occur in `s` does not occur in its end.
proof fn absent_from_rest(s: Seq<char>, pat: Seq<char>, k: int)
    requires
        0 <= k <= s.len(),
        !text::contains(s, pat),
    ensures
        !text::contains(s.skip(k), pat),
{
    let rest = s.skip(k);
    if text::contains(rest, pat) {
        let i = choose|i: int| text::occurs_at(rest, pat, i);
        assert(rest.subrange(i, i + pat.len()) =~= s.subrange(i + k, i + k + pat.len()));
        assert(text::occurs_at(s, pat, i + k));
    }
}

/// A template in which no variable stands expands to itself.
pub proof fn nothing_to_expand(template: Seq<char>, version: Seq<char>, p: Platform)
    requires
        forall|v: Var| !text::contains(template, #[trigger] marker(v)),
    ensures
        expanded(template, version, p) == template,
{
    replaced_absent(template, marker(Var::Version), value(Var::Version, version, p));
    replaced_absent(template, marker(Var::Os), value(Var::Os, version, p));
    replaced_absent(template, marker(Var::Arch), value(Var::Arch, version, p));
    replaced_absent(template, marker(Var::Target), value(Var::Target, version, p));
    replaced_absent(template, marker(Var::Exe), value(Var::Exe, version, p));
    replaced_absent(template, marker(Var::Ext), value(Var::Ext, version, p));
}

/// `s` is not empty and shares no character with any marker: it holds no brace
/// and no capital letter.
pub open spec fn foreign(s: Seq<char>) -> bool {
    &&& s.len() > 0
    &&& forall|i: int|
        0 <= i < s.len() ==> (#[trigger] s[i]) != '{' && s[i] != '}' && !('A' <= s[i] <= 'Z')
}

proof fn marker_letters(v: Var)
    ensures
        marker(v).len() >= 4,
        forall|i: int|
            0 <= i < marker(v).len() ==> (#[trigger] marker(v)[i]) == '{' || marker(v)[i] == '}' || (
            'A' <= marker(v)[i] <= 'Z'),
{
    reveal_strlit("{VERSION}");
    reveal_strlit("{OS}");
    reveal_strlit("{ARCH}");
    reveal_strlit("{TARGET}");
    reveal_strlit("{EXE}");
    reveal_strlit("{EXT}");
}

/// No character of `q` is one of `with`.
spec fn apart(q: Seq<char>, with: Seq<char>) -> bool {
    forall|i: int, j: int| 0 <= i < q.len() && 0 <= j < with.len() ==> #[trigger] q[i]
        != #[trigger] with[j]
}

/// A beginning of the replaced text in which `with` has no part is a beginning
/// of the text.
proof fn beginning_kept(s: Seq<char>, pat: Seq<char>, with: Seq<char>, q: Seq<char>)
    requires
        with.len() > 0,
        apart(q, with),
        text::occurs_at(text::replaced(s, pat, with), q, 0),
    ensures
        text::occurs_at(s, q, 0),
    decreases s.len(),
{
    let r = text::replaced(s, pat, with);
    let head = r.subrange(0, q.len() as int);
    if q.len() == 0 {
        assert(s.subrange(0, 0) =~= q);
    } else if pat.len() > 0 && s.len() > 0 {
        assert(head[0] == r[0]);
        if text::occurs_at(s, pat, 0) {
            assert(r[0] == with[0]);
            assert(false);
        }
        let tail = text::replaced(s.skip(1), pat, with);
        let q1 = q.skip(1);
        assert forall|i: int, j: int| 0 <= i < q1.len() && 0 <= j < with.len() implies #[trigger] q1[i]
            != #[trigger] with[j] by {
            assert(q1[i] == q[i + 1]);
        }
        assert(r.skip(1) =~= tail);
        assert(tail.subrange(0, q1.len() as int) =~= head.skip(1));
        beginning_kept(s.skip(1), pat, with, q1);
        assert(s.skip(1).subrange(0, q1.len() as int) =~= q1);
        assert forall|i: int| 0 <= i < q.len() implies s.subrange(0, q.len() as int)[i] == q[i] by {
            if i > 0 {
                assert(s.skip(1).subrange(0, q1.len() as int)[i - 1] == q1[i - 1]);
            }
        }
        assert(s.subrange(0, q.len() as int) =~= q);
    }
}

/// Replacing `pat` by a text without any character of `q` leaves no `pat`, and
/// brings in no other `q`.
proof fn nothing_new(s: Seq<char>, pat: Seq<char>, with: Seq<char>, q: Seq<char>)
    requires
        with.len() > 0,
        q.len() > 0,
        apart(q, with),
        q == pat || !text::contains(s, q),
    ensures
        !text::contains(text::replaced(s, pat, with), q),
    decreases s.len(),
{
    let r = text::replaced(s, pat, with);
    if text::contains(r, q) {
        let i = choose|i: int| text::occurs_at(r, q, i);
        let found = r.subrange(i, i + q.len());
        assert(found[0] == r[i]);
        if pat.len() == 0 || s.len() == 0 {
            assert(text::occurs_at(s, q, i));
            assert(false);
        } else {
            let n: int = if text::occurs_at(s, pat, 0) {
                pat.len() as int
            } else {
                1
            };
            let front = if text::occurs_at(s, pat, 0) {
                with
            } else {
                seq![s[0]]
            };
            let tail = text::replaced(s.skip(n), pat, with);
            assert(r == front + tail);
            if q != pat {
                absent_from_rest(s, q, n);
            }
            nothing_new(s.skip(n), pat, with, q);
            if i >= front.len() {
                assert(tail.subrange(i - front.len(), i - front.len() + q.len()) =~= found);
                assert(text::occurs_at(tail, q, i - front.len()));
            } else if text::occurs_at(s, pat, 0) {
                assert(r[i] == with[i]);
            } else {
                assert(i == 0);
                beginning_kept(s, pat, with, q);
                assert(text::occurs_at(s, q, 0));
            }
            assert(false);
        }
    }
}

/// One step of the expansion with a foreign value: the variable is gone, and
/// those that were gone before stay so.
proof fn step_clears(s: Seq<char>, v: Var, version: Seq<char>, p: Platform, w: Var)
    requires
        foreign(value(v, version, p)),
        v == w || !text::contains(s, marker(w)),
    ensures
        !text::contains(with_value(s, v, version, p), marker(w)),
{
    marker_letters(w);
    nothing_new(s, marker(v), value(v, version, p), marker(w));
}

/// Whatever the template, no variable is left in its expansion where the values
/// are foreign to the markers. The empty suffix that an executable has outside
/// Windows is not, so there the template must do without it.
pub proof fn no_variable_is_left(template: Seq<char>, version: Seq<char>, p: Platform, w: Var)
    requires
        foreign(version),
        foreign(value(Var::Os, version, p)),
        foreign(value(Var::Arch, version, p)),
        foreign(value(Var::Target, version, p)),
        p.windows || !text::contains(template, marker(Var::Exe)),
    ensures
        !text::contains(expanded(template, version, p), marker(w)),
{
    reveal_strlit(".exe");
    reveal_strlit("zip");
    reveal_strlit("tar.gz");
    let s1 = with_value(template, Var::Version, version, p);
    let s2 = with_value(s1, Var::Os, version, p);
    let s3 = with_value(s2, Var::Arch, version, p);
    let s4 = with_value(s3, Var::Target, version, p);
    let s5 = with_value(s4, Var::Exe, version, p);
    step_clears(template, Var::Version, version, p, Var::Version);
    step_clears(s1, Var::Os, version, p, Var::Os);
    step_clears(s2, Var::Arch, version, p, Var::Arch);
    step_clears(s3, Var::Target, version, p, Var::Target);
    step_clears(s5, Var::Ext, version, p, Var::Ext);
    step_clears(s1, Var::Os, version, p, Var::Version);
    step_clears(s2, Var::Arch, version, p, Var::Version);
    step_clears(s3, Var::Target, version, p, Var::Version);
    step_clears(s2, Var::Arch, version, p, Var::Os);
    step_clears(s3, Var::Target, version, p, Var::Os);
    step_clears(s3, Var::Target, version, p, Var::Arch);
    if p.windows {
        step_clears(s4, Var::Exe, version, p, Var::Exe);
        step_clears(s4, Var::Exe, version, p, Var::Version);
        step_clears(s4, Var::Exe, version, p, Var::Os);
        step_clears(s4, Var::Exe, version, p, Var::Arch);
        step_clears(s4, Var::Exe, version, p, Var::Target);
    } else {
        step_clears(template, Var::Version, version, p, Var::Exe);
        step_clears(s1, Var::Os, version, p, Var::Exe);
        step_clears(s2, Var::Arch, version, p, Var::Exe);
        step_clears(s3, Var::Target, version, p, Var::Exe);
        replaced_absent(s4, marker(Var::Exe), value(Var::Exe, version, p));
    }
    if w != Var::Ext {
        step_clears(s5, Var::Ext, version, p, w);
    }
}

/// After each opening brace the next brace, if there is one, is a closing one.
pub open spec fn braces_in_turn(s: Seq<char>) -> bool {
    forall|i: int, j: int|
        #![trigger s[i], s[j]]
        0 <= i < j < s.len() && s[i] == '{' && s[j] == '{' ==> closed_between(s, i, j)
}

/// A closing brace stands between two positions.
pub open spec fn closed_between(s: Seq<char>, i: int, j: int) -> bool {
    exists|k: int| i < k < j && #[trigger] s[k] == '}'
}

/// A marker has one closing brace, which is its last character.
proof fn marker_closes(v: Var)
    ensures
        marker(v).last() == '}',
        forall|i: int| 0 <= i < marker(v).len() - 1 ==> #[trigger] marker(v)[i] != '}',
        forall|i: int| 0 < i < marker(v).len() ==> #[trigger] marker(v)[i] != '{',
{
    reveal_strlit("{VERSION}");
    reveal_strlit("{OS}");
    reveal_strlit("{ARCH}");
    reveal_strlit("{TARGET}");
    reveal_strlit("{EXE}");
    reveal_strlit("{EXT}");
}

/// The braces of the end of a text take turns where those of the text do.
proof fn turns_of_rest(s: Seq<char>, n: int)
    requires
        0 <= n <= s.len(),
        braces_in_turn(s),
    ensures
        braces_in_turn(s.skip(n)),
{
    let rest = s.skip(n);
    assert forall|i: int, j: int|
        #![trigger rest[i], rest[j]]
        0 <= i < j < rest.len() && rest[i] == '{' && rest[j] == '{' implies closed_between(
        rest,
        i,
        j,
    ) by {
        assert(s[i + n] == '{' && s[j + n] == '{');
        let k = choose|k: int| i + n < k < j + n && #[trigger] s[k] == '}';
        assert(rest[k - n] == '}');
    }
}

/// What occurs in the end of a text occurs in the text.
proof fn occurs_in_whole(s: Seq<char>, n: int, pat: Seq<char>)
    requires
        0 <= n <= s.len(),
        text::contains(s.skip(n), pat),
    ensures
        text::contains(s, pat),
{
    if !text::contains(s, pat) {
        absent_from_rest(s, pat, n);
    }
}

/// Text without an opening brace before another text changes neither the turns of
/// its braces nor the variables that stand in it.
proof fn plain_text_before(t: Seq<char>, rest: Seq<char>, w: Var)
    requires
        brace_free(t),
        braces_in_turn(rest),
    ensures
        braces_in_turn(t + rest),
        text::contains(t + rest, marker(w)) ==> text::contains(rest, marker(w)),
{
    marker_shape(w);
    let s = t + rest;
    let n = t.len() as int;
    assert forall|i: int, j: int|
        #![trigger s[i], s[j]]
        0 <= i < j < s.len() && s[i] == '{' && s[j] == '{' implies closed_between(s, i, j) by {
        assert(i >= n && j >= n) by {
            if i < n {
                assert(t[i] == '{');
            }
        }
        assert(rest[i - n] == '{' && rest[j - n] == '{');
        let k = choose|k: int| i - n < k < j - n && #[trigger] rest[k] == '}';
        assert(s[k + n] == '}');
    }
    if text::contains(s, marker(w)) {
        let p = choose|p: int| text::occurs_at(s, marker(w), p);
        assert(s.subrange(p, p + marker(w).len())[0] == s[p]);
        assert(p >= n) by {
            if p < n {
                assert(t[p] == '{');
            }
        }
        assert(rest.subrange(p - n, p - n + marker(w).len()) =~= s.subrange(
            p,
            p + marker(w).len(),
        ));
        assert(text::occurs_at(rest, marker(w), p - n));
    }
}

/// The position of the first opening brace, or the length of the text.
spec fn first_open(s: Seq<char>) -> int
    decreases s.len(),
{
    if s.len() == 0 || s[0] == '{' {
        0
    } else {
        1 + first_open(s.skip(1))
    }
}

proof fn first_open_is_first(s: Seq<char>)
    ensures
        0 <= first_open(s) <= s.len(),
        first_open(s) < s.len() ==> s[first_open(s)] == '{',
        brace_free(s.take(first_open(s))),
    decreases s.len(),
{
    if s.len() > 0 && s[0] != '{' {
        let rest = s.skip(1);
        first_open_is_first(rest);
        let n = first_open(s);
        assert forall|i: int| 0 <= i < n implies #[trigger] s.take(n)[i] != '{' by {
            if i > 0 {
                assert(rest.take(n - 1)[i - 1] == s[i]);
            }
        }
    }
}

/// Where a text of which the braces take turns stands behind an opening brace that
/// begins no variable `v`, replacing that variable keeps the turns, and lets no
/// variable begin at that brace that did not before.
proof fn open_brace_before(s: Seq<char>, v: Var, with: Seq<char>, w: Var)
    requires
        s.len() > 0,
        s[0] == '{',
        braces_in_turn(s),
        braces_in_turn(text::replaced(s.skip(1), marker(v), with)),
    ensures
        braces_in_turn(seq![s[0]] + text::replaced(s.skip(1), marker(v), with)),
        text::occurs_at(
            seq![s[0]] + text::replaced(s.skip(1), marker(v), with),
            marker(w),
            0,
        ) ==> text::occurs_at(s, marker(w), 0),
{
    let rest = s.skip(1);
    let done = text::replaced(rest, marker(v), with);
    let r = seq![s[0]] + done;
    let m = first_open(rest);
    marker_shape(v);
    marker_shape(w);
    marker_closes(w);
    first_open_is_first(rest);
    let head = rest.take(m);
    let tail = rest.skip(m);
    assert(rest =~= head + tail);
    replaced_skips(head, tail, marker(v), with);
    assert(done == head + text::replaced(tail, marker(v), with));
    if m == rest.len() {
        assert(tail.len() == 0);
        assert(done =~= rest);
        assert(r =~= s);
    } else {
        assert(s[m + 1] == rest[m]);
        assert(closed_between(s, 0, m + 1));
        let k = choose|k: int| 0 < k < m + 1 && #[trigger] s[k] == '}';
        assert(head[k - 1] == s[k]);
        assert(done[k - 1] == '}');
        assert(r[k] == '}');
        assert forall|i: int, j: int|
            #![trigger r[i], r[j]]
            0 <= i < j < r.len() && r[i] == '{' && r[j] == '{' implies closed_between(r, i, j) by {
            if i > 0 {
                assert(done[i - 1] == '{' && done[j - 1] == '{');
                let c = choose|c: int| i - 1 < c < j - 1 && #[trigger] done[c] == '}';
                assert(r[c + 1] == '}');
            } else if j <= m {
                assert(head[j - 1] == done[j - 1]);
                assert(false);
            }
        }
        if text::occurs_at(r, marker(w), 0) {
            let n = marker(w).len() as int;
            let found = r.subrange(0, n);
            if k < n - 1 {
                assert(found[k] == '}');
                assert(false);
            }
            assert forall|i: int| 0 <= i < n implies s[i] == #[trigger] found[i] by {
                if i > 0 {
                    assert(found[i] == done[i - 1]);
                    assert(done[i - 1] == head[i - 1]);
                }
            }
            assert(s.subrange(0, n) =~= found);
        }
    }
}

/// Replacing one variable in a text of which the braces take turns, by a value
/// without an opening brace, keeps the turns, leaves none of that variable, and
/// makes no other one.
proof fn replacing_in_turn(s: Seq<char>, v: Var, with: Seq<char>, w: Var)
    requires
        braces_in_turn(s),
        brace_free(with),
    ensures
        braces_in_turn(text::replaced(s, marker(v), with)),
        text::contains(text::replaced(s, marker(v), with), marker(w)) ==> w != v && text::contains(
            s,
            marker(w),
        ),
    decreases s.len(),
{
    marker_shape(v);
    marker_shape(w);
    let pat = marker(v);
    let r = text::replaced(s, pat, with);
    if s.len() == 0 {
        if text::contains(r, marker(w)) {
            let p = choose|p: int| text::occurs_at(r, marker(w), p);
            assert(false);
        }
    } else if text::occurs_at(s, pat, 0) {
        let n = pat.len() as int;
        turns_of_rest(s, n);
        replacing_in_turn(s.skip(n), v, with, w);
        let done = text::replaced(s.skip(n), pat, with);
        plain_text_before(with, done, w);
        if text::contains(r, marker(w)) {
            occurs_in_whole(s, n, marker(w));
        }
    } else {
        turns_of_rest(s, 1);
        replacing_in_turn(s.skip(1), v, with, w);
        let done = text::replaced(s.skip(1), pat, with);
        if text::contains(done, marker(w)) {
            occurs_in_whole(s, 1, marker(w));
        }
        if s[0] == '{' {
            open_brace_before(s, v, with, w);
            if text::contains(r, marker(w)) {
                let p = choose|p: int| text::occurs_at(r, marker(w), p);
                if p > 0 {
                    assert(done.subrange(p - 1, p - 1 + marker(w).len()) =~= r.subrange(
                        p,
                        p + marker(w).len(),
                    ));
                    assert(text::occurs_at(done, marker(w), p - 1));
                }
            }
        } else {
            plain_text_before(seq![s[0]], done, w);
        }
    }
}

/// No variable is left in the expansion of a template in which, after each opening
/// brace, the next brace is a closing one: whatever version and machine names
/// without an opening brace are given.
pub proof fn variables_in_turn_are_all_filled(
    template: Seq<char>,
    version: Seq<char>,
    p: Platform,
)
    requires
        braces_in_turn(template),
        brace_free(version),
        plain_platform(p),
    ensures
        forall|v: Var| !text::contains(expanded(template, version, p), #[trigger] marker(v)),
{
    reveal_strlit("darwin");
    reveal_strlit("amd64");
    reveal_strlit("arm64");
    reveal_strlit(".exe");
    reveal_strlit("");
    reveal_strlit("zip");
    reveal_strlit("tar.gz");
    let s1 = with_value(template, Var::Version, version, p);
    let s2 = with_value(s1, Var::Os, version, p);
    let s3 = with_value(s2, Var::Arch, version, p);
    let s4 = with_value(s3, Var::Target, version, p);
    let s5 = with_value(s4, Var::Exe, version, p);
    assert forall|w: Var| !text::contains(expanded(template, version, p), #[trigger] marker(w)) by {
        replacing_in_turn(template, Var::Version, value(Var::Version, version, p), w);
        replacing_in_turn(s1, Var::Os, value(Var::Os, version, p), w);
        replacing_in_turn(s2, Var::Arch, value(Var::Arch, version, p), w);
        replacing_in_turn(s3, Var::Target, value(Var::Target, version, p), w);
        replacing_in_turn(s4, Var::Exe, value(Var::Exe, version, p), w);
        replacing_in_turn(s5, Var::Ext, value(Var::Ext, version, p), w);
    }
}

/// Under the same conditions an expansion expands to itself.
pub proof fn expanding_again_changes_nothing(
    template: Seq<char>,
    version: Seq<char>,
    p: Platform,
)
    requires
        braces_in_turn(template),
        brace_free(version),
        plain_platform(p),
    ensures
        expanded(expanded(template, version, p), version, p) == expanded(template, version, p),
{
    variables_in_turn_are_all_filled(template, version, p);
    nothing_to_expand(expanded(template, version, p), version, p);
}

/// Each variable of a template gives way to what it stands for, whatever stands
/// before and behind it: the version, what releases call the system and the
/// architecture, the full target, and what executables and archives end with.
pub proof fn each_variable_has_its_value(
    before: Seq<char>,
    after: Seq<char>,
    version: Seq<char>,
    p: Platform,
)
    requires
        brace_free(before),
        brace_free(after),
        brace_free(version),
        plain_platform(p),
    ensures
        expanded(before + "{VERSION}"@ + after, version, p) == before + version + after,
        expanded(before + "{OS}"@ + after, version, p) == before + (if p.os@ == "macos"@ {
            "darwin"@
        } else {
            p.os@
        }) + after,
        expanded(before + "{ARCH}"@ + after, version, p) == before + (if p.arch@ == "x86_64"@ {
            "amd64"@
        } else if p.arch@ == "aarch64"@ {
            "arm64"@
        } else {
            p.arch@
        }) + after,
        expanded(before + "{TARGET}"@ + after, version, p) == before + p.target@ + after,
        expanded(before + "{EXE}"@ + after, version, p) == before + (if p.windows {
            ".exe"@
        } else {
            ""@
        }) + after,
        expanded(before + "{EXT}"@ + after, version, p) == before + (if p.windows {
            "zip"@
        } else {
            "tar.gz"@
        }) + after,
{
    one_variable(before, Var::Version, after, version, p);
    one_variable(before, Var::Os, after, version, p);
    one_variable(before, Var::Arch, after, version, p);
    one_variable(before, Var::Target, after, version, p);
    one_variable(before, Var::Exe, after, version, p);
    one_variable(before, Var::Ext, after, version, p);
}

proof fn one_variable(
    before: Seq<char>,
    v: Var,
    after: Seq<char>,
    version: Seq<char>,
    p: Platform,
)
    requires
        brace_free(before),
        brace_free(after),
        brace_free(version),
        plain_platform(p),
    ensures
        expanded(before + marker(v) + after, version, p) == before + value(v, version, p) + after,
{
    let pieces = seq![Piece::Text(before), Piece::Mark(v), Piece::Text(after)];
    reveal_with_fuel(written, 4);
    reveal_with_fuel(filled, 4);
    assert(written(pieces) =~= before + marker(v) + after);
    assert(filled(pieces, version, p) =~= before + value(v, version, p) + after);
    expansion_fills_the_pieces(pieces, version, p);
}

/// A template that is one template after another expands to their expansions, one
/// after the other.
pub proof fn parts_expand_one_by_one(
    a: Seq<Piece>,
    b: Seq<Piece>,
    version: Seq<char>,
    p: Platform,
)
    requires
        well_formed(a),
        well_formed(b),
        brace_free(version),
        plain_platform(p),
    ensures
        expanded(written(a) + written(b), version, p) == expanded(written(a), version, p)
            + expanded(written(b), version, p),
{
    pieces_in_a_row(a, b, version, p);
    assert(well_formed(a + b)) by {
        assert forall|i: int| 0 <= i < (a + b).len() implies (#[trigger] (a + b)[i] matches
            Piece::Text(t) ==> brace_free(t)) by {
            if i < a.len() {
                assert((a + b)[i] == a[i]);
            } else {
                assert((a + b)[i] == b[i - a.len()]);
            }
        }
    }
    expansion_fills_the_pieces(a, version, p);
    expansion_fills_the_pieces(b, version, p);
    expansion_fills_the_pieces(a + b, version, p);
}

proof fn pieces_in_a_row(a: Seq<Piece>, b: Seq<Piece>, version: Seq<char>, p: Platform)
    ensures
        written(a + b) == written(a) + written(b),
        filled(a + b, version, p) == filled(a, version, p) + filled(b, version, p),
    decreases a.len(),
{
    if a.len() == 0 {
        assert(a + b =~= b);
        assert(written(a) + written(b) =~= written(b));
        assert(filled(a, version, p) + filled(b, version, p) =~= filled(b, version, p));
    } else {
        assert((a + b)[0] == a[0]);
        assert((a + b).skip(1) =~= a.skip(1) + b);
        pieces_in_a_row(a.skip(1), b, version, p);
        assert(written(a + b) =~= written(a) + written(b));
        assert(filled(a + b, version, p) =~= filled(a, version, p) + filled(b, version, p));
    }
}

/// The variables of any template are replaced one after the other, in this order, so
/// that a value that names a later variable is itself replaced.
pub proof fn variables_are_replaced_in_order(
    template: Seq<char>,
    version: Seq<char>,
    p: Platform,
)
    ensures
        ({
            let a = text::replaced(template, "{VERSION}"@, version);
            let b = text::replaced(a, "{OS}"@, platform::os_name(p.os@));
            let c = text::replaced(b, "{ARCH}"@, platform::arch_name(p.arch@));
            let d = text::replaced(c, "{TARGET}"@, p.target@);
            let e = text::replaced(d, "{EXE}"@, platform::exe_suffix(p.windows));
            expanded(template, version, p) == text::replaced(
                e,
                "{EXT}"@,
                platform::archive_ext(p.windows),
            )
        }),
{
}

} // verus!
