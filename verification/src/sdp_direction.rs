//! The direction of the media in a session description.
use vstd::prelude::*;
use crate::text::{
    chars_of, contains, ends_with, first_occurrence, has_prefix, has_suffix, is_white, join3,
    occurrence_from, occurs, occurs_at, opt_text, own, same, split, split_at_text, split_on,
    split_text, starts_with, string_of, text_without_white_ends_is_trimmed, texts, trim, trimmed,
};

verus! {

/// Which way media flows, as one side sees it.
#[derive(Clone, Copy, Debug, PartialEq, Eq, Structural)]
pub enum MediaDirection {
    SendRecv,
    SendOnly,
    RecvOnly,
    Inactive,
}

impl MediaDirection {
    /// The attribute line of the direction.
    pub open spec fn line_text(self) -> Seq<char> {
        match self {
            MediaDirection::SendRecv => "a=sendrecv"@,
            MediaDirection::SendOnly => "a=sendonly"@,
            MediaDirection::RecvOnly => "a=recvonly"@,
            MediaDirection::Inactive => "a=inactive"@,
        }
    }

    /// The attribute line of the direction.
    pub fn line(&self) -> (r: String)
        ensures
            r@ == self.line_text(),
    {
        match self {
            MediaDirection::SendRecv => own("a=sendrecv"),
            MediaDirection::SendOnly => own("a=sendonly"),
            MediaDirection::RecvOnly => own("a=recvonly"),
            MediaDirection::Inactive => own("a=inactive"),
        }
    }

    /// The direction as the other side sees it.
    pub open spec fn mirrored(self) -> MediaDirection {
        match self {
            MediaDirection::SendRecv => MediaDirection::SendRecv,
            MediaDirection::SendOnly => MediaDirection::RecvOnly,
            MediaDirection::RecvOnly => MediaDirection::SendOnly,
            MediaDirection::Inactive => MediaDirection::Inactive,
        }
    }

    /// The direction as the other side sees it.
    pub fn mirror(self) -> (r: MediaDirection)
        ensures
            r == self.mirrored(),
    {
        match self {
            MediaDirection::SendRecv => MediaDirection::SendRecv,
            MediaDirection::SendOnly => MediaDirection::RecvOnly,
            MediaDirection::RecvOnly => MediaDirection::SendOnly,
            MediaDirection::Inactive => MediaDirection::Inactive,
        }
    }
}

/// The direction that a description gives: the first of inactive, sendonly and
/// recvonly that has a line of its own, else both ways.
pub open spec fn direction_of(sdp: Seq<char>) -> MediaDirection {
    if occurs(sdp, "\r\na=inactive\r\n"@) || has_suffix(sdp, "\r\na=inactive"@) {
        MediaDirection::Inactive
    } else if occurs(sdp, "\r\na=sendonly\r\n"@) || has_suffix(sdp, "\r\na=sendonly"@) {
        MediaDirection::SendOnly
    } else if occurs(sdp, "\r\na=recvonly\r\n"@) || has_suffix(sdp, "\r\na=recvonly"@) {
        MediaDirection::RecvOnly
    } else {
        MediaDirection::SendRecv
    }
}

/// See [`direction_of`].
pub fn media_direction_from_sdp(sdp: &str) -> (r: MediaDirection)
    ensures
        r == direction_of(sdp@),
{
    if contains(sdp, "\r\na=inactive\r\n") || ends_with(sdp, "\r\na=inactive") {
        MediaDirection::Inactive
    } else if contains(sdp, "\r\na=sendonly\r\n") || ends_with(sdp, "\r\na=sendonly") {
        MediaDirection::SendOnly
    } else if contains(sdp, "\r\na=recvonly\r\n") || ends_with(sdp, "\r\na=recvonly") {
        MediaDirection::RecvOnly
    } else {
        MediaDirection::SendRecv
    }
}

/// Whether a line gives a direction.
pub open spec fn is_direction_line(line: Seq<char>) -> bool {
    line == "a=sendrecv"@ || line == "a=sendonly"@ || line == "a=recvonly"@ || line == "a=inactive"@
}

/// The lines that are neither empty nor give a direction.
pub open spec fn other_lines(lines: Seq<Seq<char>>) -> Seq<Seq<char>>
    decreases lines.len(),
{
    if lines.len() == 0 {
        Seq::empty()
    } else if lines[0].len() == 0 || is_direction_line(lines[0]) {
        other_lines(lines.drop_first())
    } else {
        seq![lines[0]] + other_lines(lines.drop_first())
    }
}

/// The lines with `line` behind the first audio section's own line, or at the
/// end where there is no audio section.
pub open spec fn with_direction(lines: Seq<Seq<char>>, line: Seq<char>) -> Seq<Seq<char>>
    decreases lines.len(),
{
    if lines.len() == 0 {
        seq![line]
    } else if has_prefix(lines[0], "m=audio "@) {
        seq![lines[0], line] + lines.drop_first()
    } else {
        seq![lines[0]] + with_direction(lines.drop_first(), line)
    }
}

/// The lines as one text, each with its line end.
pub open spec fn lines_text(lines: Seq<Seq<char>>) -> Seq<char>
    decreases lines.len(),
{
    if lines.len() == 0 {
        Seq::empty()
    } else {
        lines[0] + "\r\n"@ + lines_text(lines.drop_first())
    }
}

/// The lines of the answer to an offer: those of `answer`, with the direction that
/// mirrors the offer's in place of its own.
pub open spec fn answer_lines(answer: Seq<char>, offer: Seq<char>) -> Seq<Seq<char>> {
    with_direction(
        other_lines(split_text(answer, "\r\n"@)),
        direction_of(offer).mirrored().line_text(),
    )
}

/// How often the lines give a direction.
pub open spec fn direction_count(lines: Seq<Seq<char>>) -> nat
    decreases lines.len(),
{
    if lines.len() == 0 {
        0
    } else {
        direction_count(lines.drop_first()) + if is_direction_line(lines[0]) {
            1nat
        } else {
            0nat
        }
    }
}

fn is_direction(line: &str) -> (r: bool)
    ensures
        r == is_direction_line(line@),
{
    same(line, "a=sendrecv") || same(line, "a=sendonly") || same(line, "a=recvonly") || same(
        line,
        "a=inactive",
    )
}

/// The rest of the answer's lines, once `inserted` says whether the direction
/// stands behind the audio section's own line already.
spec fn lines_to_come(rest: Seq<Seq<char>>, line: Seq<char>, inserted: bool) -> Seq<Seq<char>> {
    if inserted {
        other_lines(rest)
    } else {
        with_direction(other_lines(rest), line)
    }
}

proof fn lines_text_of_one(lines: Seq<Seq<char>>, first: Seq<char>, rest: Seq<Seq<char>>)
    requires
        lines == seq![first] + rest,
    ensures
        lines_text(lines) == first + "\r\n"@ + lines_text(rest),
{
    assert(lines[0] == first);
    assert(lines.drop_first() =~= rest);
}

/// The answer with the direction that mirrors the offer's in place of its own.
pub fn rewrite_sdp_direction(answer_sdp: &str, offer_sdp: &str) -> (r: String)
    ensures
        r@ == lines_text(answer_lines(answer_sdp@, offer_sdp@)),
{
    proof {
        reveal_strlit("\r\n");
    }
    let line = media_direction_from_sdp(offer_sdp).mirror().line();
    let parts = split_at_text(answer_sdp, "\r\n");
    let ghost all = split_text(answer_sdp@, "\r\n"@);
    let ghost whole = lines_text(answer_lines(answer_sdp@, offer_sdp@));
    let mut out = String::new();
    let mut inserted = false;
    let mut i: usize = 0;
    assert(all.skip(0) =~= all);
    assert(out@ + lines_text(lines_to_come(all.skip(0), line@, false)) =~= whole);
    while i < parts.len()
        invariant
            i <= parts.len(),
            texts(parts@) == all,
            out@ + lines_text(lines_to_come(all.skip(i as int), line@, inserted)) == whole,
        decreases parts.len() - i,
    {
        let ghost here = all.skip(i as int);
        let ghost rest = all.skip(i + 1);
        let ghost before = out@;
        let part = parts[i].as_str();
        assert(here.drop_first() =~= rest);
        assert(here[0] == parts@[i as int]@);
        if part.is_empty() || is_direction(part) {
            i += 1;
            continue;
        }
        let ghost kept = other_lines(rest);
        assert(other_lines(here)[0] == part@);
        assert(other_lines(here).drop_first() =~= kept);
        out = join3(out.as_str(), part, "\r\n");
        if !inserted && starts_with(part, "m=audio ") {
            out = join3(out.as_str(), line.as_str(), "\r\n");
            inserted = true;
            proof {
                let tail = seq![line@] + kept;
                assert(lines_to_come(here, line@, false) =~= seq![part@] + tail);
                lines_text_of_one(lines_to_come(here, line@, false), part@, tail);
                lines_text_of_one(tail, line@, kept);
                assert(out@ + lines_text(kept) =~= before + (part@ + "\r\n"@ + (line@ + "\r\n"@
                    + lines_text(kept))));
            }
        } else {
            proof {
                let tail = lines_to_come(rest, line@, inserted);
                assert(lines_to_come(here, line@, inserted) =~= seq![part@] + tail);
                lines_text_of_one(lines_to_come(here, line@, inserted), part@, tail);
                assert(out@ + lines_text(tail) =~= before + (part@ + "\r\n"@ + lines_text(tail)));
            }
        }
        i += 1;
    }
    assert(all.skip(i as int) =~= Seq::empty());
    if !inserted {
        let ghost before = out@;
        out = join3(out.as_str(), line.as_str(), "\r\n");
        proof {
            assert(seq![line@] =~= seq![line@] + Seq::<Seq<char>>::empty());
            lines_text_of_one(seq![line@], line@, Seq::empty());
            assert(out@ =~= before + lines_text(seq![line@]));
        }
    }
    assert(out@ =~= whole);
    out
}

proof fn other_lines_give_none(lines: Seq<Seq<char>>)
    ensures
        direction_count(other_lines(lines)) == 0,
    decreases lines.len(),
{
    if lines.len() > 0 {
        other_lines_give_none(lines.drop_first());
        if !(lines[0].len() == 0 || is_direction_line(lines[0])) {
            assert(other_lines(lines).drop_first() =~= other_lines(lines.drop_first()));
        }
    }
}

proof fn direction_is_added_once(lines: Seq<Seq<char>>, line: Seq<char>)
    requires
        direction_count(lines) == 0,
        is_direction_line(line),
    ensures
        direction_count(with_direction(lines, line)) == 1,
        with_direction(lines, line).contains(line),
    decreases lines.len(),
{
    reveal_with_fuel(direction_count, 3);
    let out = with_direction(lines, line);
    if lines.len() == 0 {
        assert(out[0] == line);
        assert(out.drop_first() =~= Seq::empty());
    } else if has_prefix(lines[0], "m=audio "@) {
        assert(out[1] == line);
        assert(out.drop_first() =~= seq![line] + lines.drop_first());
        assert(out.drop_first().drop_first() =~= lines.drop_first());
    } else {
        let rest = with_direction(lines.drop_first(), line);
        direction_is_added_once(lines.drop_first(), line);
        assert(out.drop_first() =~= rest);
        let k = rest.index_of(line);
        assert(out[k + 1] == line);
    }
}

/// An answer gives one direction, the one that mirrors the offer's.
pub proof fn answer_has_one_direction(answer: Seq<char>, offer: Seq<char>)
    ensures
        direction_count(answer_lines(answer, offer)) == 1,
        answer_lines(answer, offer).contains(direction_of(offer).mirrored().line_text()),
{
    other_lines_give_none(split_text(answer, "\r\n"@));
    direction_is_added_once(
        other_lines(split_text(answer, "\r\n"@)),
        direction_of(offer).mirrored().line_text(),
    );
}

/// A text without line ends, which is one line.
spec fn is_one_line(line: Seq<char>) -> bool {
    !occurs(line, "\r\n"@)
}

spec fn are_lines(lines: Seq<Seq<char>>) -> bool {
    forall|i: int| 0 <= i < lines.len() ==> is_one_line(#[trigger] lines[i])
}

/// A line end begins behind a line, and nowhere before.
proof fn line_end_is_first(line: Seq<char>, rest: Seq<char>)
    requires
        is_one_line(line),
    ensures
        occurs_at(line + "\r\n"@ + rest, "\r\n"@, line.len() as int),
        forall|i: int|
            0 <= i < line.len() ==> !occurs_at(line + "\r\n"@ + rest, "\r\n"@, i),
{
    reveal_strlit("\r\n");
    let end = "\r\n"@;
    let all = line + end + rest;
    assert(all.subrange(line.len() as int, line.len() as int + 2) =~= end);
    assert forall|i: int| 0 <= i < line.len() implies !occurs_at(all, end, i) by {
        if occurs_at(all, end, i) {
            let at = all.subrange(i, i + 2);
            assert(at[0] == all[i] && at[1] == all[i + 1]);
            if i + 2 <= line.len() {
                assert(line.subrange(i, i + 2) =~= end);
                assert(occurs_at(line, end, i));
            } else {
                assert(all[i + 1] == end[0]);
            }
        }
    }
}

proof fn occurrence_is_first(s: Seq<char>, p: Seq<char>, from: int, i: int)
    requires
        0 <= from <= i,
        occurs_at(s, p, i),
        forall|k: int| from <= k < i ==> !occurs_at(s, p, k),
    ensures
        occurrence_from(s, p, from) == Some(i),
    decreases i - from,
{
    if from < i {
        occurrence_is_first(s, p, from + 1, i);
    }
}

proof fn no_occurrence(s: Seq<char>, p: Seq<char>, from: int)
    requires
        0 <= from,
        !occurs(s, p),
    ensures
        occurrence_from(s, p, from) is None,
    decreases s.len() + 1 - from,
{
    if from + p.len() <= s.len() {
        assert(!occurs_at(s, p, from));
        no_occurrence(s, p, from + 1);
    }
}

/// The first occurrence is one, and there is none before it.
proof fn occurrence_facts(s: Seq<char>, p: Seq<char>, from: int)
    requires
        0 <= from,
    ensures
        match occurrence_from(s, p, from) {
            Some(i) => from <= i && occurs_at(s, p, i) && forall|k: int|
                from <= k < i ==> !occurs_at(s, p, k),
            None => forall|k: int| from <= k ==> !occurs_at(s, p, k),
        },
    decreases s.len() + 1 - from,
{
    if from + p.len() <= s.len() && !occurs_at(s, p, from) {
        occurrence_facts(s, p, from + 1);
    }
}

proof fn split_gives_lines(s: Seq<char>)
    ensures
        are_lines(split_text(s, "\r\n"@)),
    decreases s.len(),
{
    reveal_strlit("\r\n");
    let end = "\r\n"@;
    occurrence_facts(s, end, 0);
    match first_occurrence(s, end) {
        Some(i) => {
            let first = s.take(i);
            assert forall|k: int| !occurs_at(first, end, k) by {
                if occurs_at(first, end, k) {
                    assert(s.subrange(k, k + 2) =~= first.subrange(k, k + 2));
                    assert(occurs_at(s, end, k));
                }
            }
            let rest = s.skip(i + 2);
            split_gives_lines(rest);
            let all = split_text(s, end);
            assert forall|k: int| 0 <= k < all.len() implies is_one_line(#[trigger] all[k]) by {
                if k > 0 {
                    assert(all[k] == split_text(rest, end)[k - 1]);
                }
            }
        },
        None => {
            assert(is_one_line(s));
        },
    }
}

/// Lines that are written as one text are read back from it, with the empty text behind
/// the last line end.
proof fn lines_are_read_back(lines: Seq<Seq<char>>)
    requires
        are_lines(lines),
    ensures
        split_text(lines_text(lines), "\r\n"@) == lines.push(Seq::empty()),
    decreases lines.len(),
{
    reveal_strlit("\r\n");
    let end = "\r\n"@;
    let all = lines_text(lines);
    if lines.len() == 0 {
        no_occurrence(all, end, 0);
        assert(split_text(all, end) =~= lines.push(Seq::empty()));
    } else {
        let first = lines[0];
        let rest = lines.drop_first();
        assert forall|i: int| 0 <= i < rest.len() implies is_one_line(#[trigger] rest[i]) by {
            assert(rest[i] == lines[i + 1]);
        }
        lines_are_read_back(rest);
        line_end_is_first(first, lines_text(rest));
        occurrence_is_first(all, end, 0, first.len() as int);
        assert(all.take(first.len() as int) =~= first);
        assert(all.skip(first.len() as int + 2) =~= lines_text(rest));
        assert(seq![first] + rest.push(Seq::empty()) =~= lines.push(Seq::empty()));
    }
}

proof fn other_lines_of_more(lines: Seq<Seq<char>>, last: Seq<char>)
    requires
        last.len() == 0,
    ensures
        other_lines(lines.push(last)) == other_lines(lines),
    decreases lines.len(),
{
    reveal_with_fuel(other_lines, 2);
    let all = lines.push(last);
    if lines.len() > 0 {
        other_lines_of_more(lines.drop_first(), last);
        assert(all.drop_first() =~= lines.drop_first().push(last));
    } else {
        assert(all.drop_first() =~= Seq::empty());
    }
}

/// Whether no line is empty or gives a direction.
spec fn are_others(lines: Seq<Seq<char>>) -> bool {
    forall|i: int|
        0 <= i < lines.len() ==> (#[trigger] lines[i]).len() > 0 && !is_direction_line(lines[i])
}

proof fn other_lines_facts(lines: Seq<Seq<char>>)
    requires
        are_lines(lines),
    ensures
        are_others(other_lines(lines)),
        are_lines(other_lines(lines)),
    decreases lines.len(),
{
    if lines.len() > 0 {
        let rest = lines.drop_first();
        assert forall|i: int| 0 <= i < rest.len() implies is_one_line(#[trigger] rest[i]) by {
            assert(rest[i] == lines[i + 1]);
        }
        other_lines_facts(rest);
        let out = other_lines(lines);
        if !(lines[0].len() == 0 || is_direction_line(lines[0])) {
            assert forall|i: int| 0 <= i < out.len() implies (#[trigger] out[i]).len() > 0
                && !is_direction_line(out[i]) && is_one_line(out[i]) by {
                if i > 0 {
                    assert(out[i] == other_lines(rest)[i - 1]);
                }
            }
        }
    }
}

proof fn others_stay(lines: Seq<Seq<char>>)
    requires
        are_others(lines),
    ensures
        other_lines(lines) == lines,
    decreases lines.len(),
{
    if lines.len() > 0 {
        let rest = lines.drop_first();
        assert forall|i: int| 0 <= i < rest.len() implies (#[trigger] rest[i]).len() > 0
            && !is_direction_line(rest[i]) by {
            assert(rest[i] == lines[i + 1]);
        }
        others_stay(rest);
        assert(seq![lines[0]] + rest =~= lines);
    }
}

proof fn direction_is_left_out(lines: Seq<Seq<char>>, line: Seq<char>)
    requires
        are_others(lines),
        is_direction_line(line),
    ensures
        other_lines(with_direction(lines, line)) == lines,
    decreases lines.len(),
{
    reveal_with_fuel(other_lines, 3);
    let out = with_direction(lines, line);
    if lines.len() == 0 {
        assert(out.drop_first() =~= Seq::empty());
    } else {
        let rest = lines.drop_first();
        assert forall|i: int| 0 <= i < rest.len() implies (#[trigger] rest[i]).len() > 0
            && !is_direction_line(rest[i]) by {
            assert(rest[i] == lines[i + 1]);
        }
        assert(seq![lines[0]] + rest =~= lines);
        if has_prefix(lines[0], "m=audio "@) {
            others_stay(rest);
            assert(out.drop_first() =~= seq![line] + rest);
            assert(out.drop_first().drop_first() =~= rest);
        } else {
            direction_is_left_out(rest, line);
            assert(out.drop_first() =~= with_direction(rest, line));
        }
    }
}

proof fn with_direction_facts(lines: Seq<Seq<char>>, line: Seq<char>)
    ensures
        with_direction(lines, line).len() == lines.len() + 1,
        forall|i: int|
            0 <= i <= lines.len() ==> (#[trigger] with_direction(lines, line)[i]) == line
                || lines.contains(with_direction(lines, line)[i]),
        exists|k: int|
            0 <= k <= lines.len() && (lines.len() > 0 ==> k > 0) && #[trigger] with_direction(
                lines,
                line,
            )[k] == line,
    decreases lines.len(),
{
    let out = with_direction(lines, line);
    if lines.len() == 0 {
        assert(out[0] == line);
    } else {
        let rest = lines.drop_first();
        assert(lines.contains(lines[0]));
        assert forall|x: Seq<char>| rest.contains(x) implies lines.contains(x) by {
            let j = rest.index_of(x);
            assert(lines[j + 1] == x);
        }
        if has_prefix(lines[0], "m=audio "@) {
            assert(out[1] == line);
            assert forall|i: int| 0 <= i <= lines.len() implies (#[trigger] out[i]) == line
                || lines.contains(out[i]) by {
                if i > 1 {
                    assert(out[i] == rest[i - 2]);
                }
            }
        } else {
            let more = with_direction(rest, line);
            with_direction_facts(rest, line);
            assert forall|i: int| 0 <= i <= lines.len() implies (#[trigger] out[i]) == line
                || lines.contains(out[i]) by {
                if i > 0 {
                    assert(out[i] == more[i - 1]);
                }
            }
            let k = choose|k: int| 0 <= k <= rest.len() && #[trigger] more[k] == line;
            assert(out[k + 1] == line);
        }
    }
}

/// A line that is not the first stands between two line ends.
proof fn later_line_is_found(lines: Seq<Seq<char>>, k: int)
    requires
        0 < k < lines.len(),
    ensures
        occurs(lines_text(lines), "\r\n"@ + lines[k] + "\r\n"@),
    decreases lines.len(),
{
    reveal_with_fuel(lines_text, 2);
    reveal_strlit("\r\n");
    let end = "\r\n"@;
    let rest = lines.drop_first();
    let wanted = end + lines[k] + end;
    let all = lines_text(lines);
    let skipped = lines[0].len() as int;
    if k == 1 {
        assert(rest[0] == lines[1]);
        assert(all =~= lines[0] + wanted + lines_text(rest.drop_first()));
        assert(all.subrange(skipped, skipped + wanted.len()) =~= wanted);
        assert(occurs_at(all, wanted, skipped));
    } else {
        later_line_is_found(rest, k - 1);
        assert(rest[k - 1] == lines[k]);
        let i = choose|i: int| occurs_at(lines_text(rest), wanted, i);
        assert(all.subrange(skipped + 2 + i, skipped + 2 + i + wanted.len()) =~= lines_text(
            rest,
        ).subrange(i, i + wanted.len()));
        assert(occurs_at(all, wanted, skipped + 2 + i));
    }
}

/// What stands between two line ends is one of the lines.
proof fn found_line_is_one(lines: Seq<Seq<char>>, line: Seq<char>, i: int)
    requires
        are_lines(lines),
        is_one_line(line),
        occurs_at(lines_text(lines), "\r\n"@ + line + "\r\n"@, i),
    ensures
        lines.contains(line),
    decreases lines.len(),
{
    reveal_strlit("\r\n");
    let end = "\r\n"@;
    let wanted = end + line + end;
    let all = lines_text(lines);
    assert(lines.len() > 0);
    let first = lines[0];
    let rest = lines.drop_first();
    let more = lines_text(rest);
    let n = first.len() as int;
    assert forall|k: int| 0 <= k < rest.len() implies is_one_line(#[trigger] rest[k]) by {
        assert(rest[k] == lines[k + 1]);
    }
    let at = all.subrange(i, i + wanted.len());
    assert(at[0] == '\r' && at[1] == '\n');
    line_end_is_first(first, more);
    if i < n {
        assert(all.subrange(i, i + 2) =~= end);
        assert(occurs_at(all, end, i));
    }
    if i == n + 1 {
        assert(all[n + 1] == '\n');
    }
    if i == n {
        assert(more.take(line.len() as int + 2) =~= at.skip(2));
        assert(at.skip(2) =~= line + end);
        assert(rest.len() > 0);
        let next = rest[0];
        let tail = more.skip(line.len() as int + 2);
        assert(more =~= line + end + tail);
        line_end_is_first(line, tail);
        line_end_is_first(next, lines_text(rest.drop_first()));
        assert(line.len() == next.len());
        assert(line =~= more.take(line.len() as int));
        assert(next =~= more.take(line.len() as int));
        assert(lines[1] == line);
    } else {
        let j = i - n - 2;
        assert(more.subrange(j, j + wanted.len()) =~= at);
        found_line_is_one(rest, line, j);
        let k = rest.index_of(line);
        assert(lines[k + 1] == line);
    }
}

proof fn direction_lines_are_lines()
    ensures
        forall|d: MediaDirection| is_one_line(#[trigger] d.line_text()),
        forall|d: MediaDirection|
            (#[trigger] d.line_text()).len() > 0 && d.line_text().last() != '\n',
{
    reveal_strlit("\r\n");
    reveal_strlit("a=sendrecv");
    reveal_strlit("a=sendonly");
    reveal_strlit("a=recvonly");
    reveal_strlit("a=inactive");
    assert forall|d: MediaDirection| is_one_line(#[trigger] d.line_text()) by {
        let t = d.line_text();
        assert forall|i: int| !occurs_at(t, "\r\n"@, i) by {
            if occurs_at(t, "\r\n"@, i) {
                assert(t.subrange(i, i + 2)[0] == t[i]);
            }
        }
    }
}

/// The lines of an answer are lines, and only its own direction gives one.
proof fn answer_lines_facts(answer: Seq<char>, offer: Seq<char>)
    ensures
        are_lines(answer_lines(answer, offer)),
        are_others(other_lines(split_text(answer, "\r\n"@))),
        forall|x: Seq<char>|
            is_direction_line(x) && #[trigger] answer_lines(answer, offer).contains(x) ==> x
                == direction_of(offer).mirrored().line_text(),
{
    let others = other_lines(split_text(answer, "\r\n"@));
    let line = direction_of(offer).mirrored().line_text();
    let lines = answer_lines(answer, offer);
    split_gives_lines(answer);
    other_lines_facts(split_text(answer, "\r\n"@));
    direction_lines_are_lines();
    with_direction_facts(others, line);
    assert forall|i: int| 0 <= i < lines.len() implies is_one_line(#[trigger] lines[i]) by {
        if lines[i] != line {
            let k = others.index_of(lines[i]);
            assert(is_one_line(others[k]));
        }
    }
    assert forall|x: Seq<char>| is_direction_line(x) && #[trigger] lines.contains(x) implies x
        == line by {
        let i = lines.index_of(x);
        assert(lines[i] == x);
        if x != line {
            let k = others.index_of(x);
            assert(others[k] == x);
        }
    }
}

/// The texts that a direction is looked for by.
proof fn between_line_ends(d: MediaDirection)
    ensures
        d is Inactive ==> "\r\na=inactive\r\n"@ == "\r\n"@ + d.line_text() + "\r\n"@
            && "\r\na=inactive"@ == "\r\n"@ + d.line_text(),
        d is SendOnly ==> "\r\na=sendonly\r\n"@ == "\r\n"@ + d.line_text() + "\r\n"@
            && "\r\na=sendonly"@ == "\r\n"@ + d.line_text(),
        d is RecvOnly ==> "\r\na=recvonly\r\n"@ == "\r\n"@ + d.line_text() + "\r\n"@
            && "\r\na=recvonly"@ == "\r\n"@ + d.line_text(),
{
    reveal_strlit("\r\n");
    reveal_strlit("a=sendonly");
    reveal_strlit("a=recvonly");
    reveal_strlit("a=inactive");
    reveal_strlit("\r\na=inactive\r\n");
    reveal_strlit("\r\na=inactive");
    reveal_strlit("\r\na=sendonly\r\n");
    reveal_strlit("\r\na=sendonly");
    reveal_strlit("\r\na=recvonly\r\n");
    reveal_strlit("\r\na=recvonly");
    assert("\r\na=inactive\r\n"@ =~= "\r\n"@ + "a=inactive"@ + "\r\n"@);
    assert("\r\na=inactive"@ =~= "\r\n"@ + "a=inactive"@);
    assert("\r\na=sendonly\r\n"@ =~= "\r\n"@ + "a=sendonly"@ + "\r\n"@);
    assert("\r\na=sendonly"@ =~= "\r\n"@ + "a=sendonly"@);
    assert("\r\na=recvonly\r\n"@ =~= "\r\n"@ + "a=recvonly"@ + "\r\n"@);
    assert("\r\na=recvonly"@ =~= "\r\n"@ + "a=recvonly"@);
}

proof fn lines_text_ends(lines: Seq<Seq<char>>)
    requires
        lines.len() > 0,
    ensures
        lines_text(lines).len() > 0,
        lines_text(lines).last() == '\n',
    decreases lines.len(),
{
    reveal_strlit("\r\n");
    let rest = lines.drop_first();
    let head = lines[0] + "\r\n"@;
    if rest.len() > 0 {
        lines_text_ends(rest);
        assert((head + lines_text(rest)).last() == lines_text(rest).last());
    } else {
        assert(lines_text(rest) =~= Seq::empty());
        assert(lines_text(lines) =~= head);
        assert(head.last() == "\r\n"@.last());
    }
}

/// A direction that is not that of the lines is not found in their text.
proof fn direction_is_found(lines: Seq<Seq<char>>, d: MediaDirection, other: MediaDirection)
    requires
        are_lines(lines),
        lines.len() > 0,
        forall|x: Seq<char>|
            is_direction_line(x) && #[trigger] lines.contains(x) ==> x == d.line_text(),
    ensures
        other != d ==> !occurs(lines_text(lines), "\r\n"@ + other.line_text() + "\r\n"@),
        !has_suffix(lines_text(lines), "\r\n"@ + other.line_text()),
{
    reveal_strlit("a=sendrecv");
    reveal_strlit("a=sendonly");
    reveal_strlit("a=recvonly");
    reveal_strlit("a=inactive");
    direction_lines_are_lines();
    lines_text_ends(lines);
    let all = lines_text(lines);
    let tail = "\r\n"@ + other.line_text();
    if has_suffix(all, tail) {
        assert(all.skip(all.len() - tail.len()).last() == all.last());
        assert(tail.last() == other.line_text().last());
    }
    if other != d && occurs(all, "\r\n"@ + other.line_text() + "\r\n"@) {
        let i = choose|i: int| occurs_at(all, "\r\n"@ + other.line_text() + "\r\n"@, i);
        found_line_is_one(lines, other.line_text(), i);
        assert(other.line_text() == d.line_text());
        assert(other.line_text()[2] == d.line_text()[2] && other.line_text()[6]
            == d.line_text()[6]);
    }
}

/// The direction that is read back from an answer is the one that mirrors the
/// offer's, where the answer has any other line.
pub proof fn answer_direction_is_read_back(answer: Seq<char>, offer: Seq<char>)
    requires
        other_lines(split_text(answer, "\r\n"@)).len() > 0,
    ensures
        direction_of(lines_text(answer_lines(answer, offer))) == direction_of(offer).mirrored(),
{
    let others = other_lines(split_text(answer, "\r\n"@));
    let d = direction_of(offer).mirrored();
    let lines = answer_lines(answer, offer);
    answer_lines_facts(answer, offer);
    with_direction_facts(others, d.line_text());
    let k = choose|k: int|
        0 <= k <= others.len() && k > 0 && #[trigger] with_direction(others, d.line_text())[k]
            == d.line_text();
    later_line_is_found(lines, k);
    direction_is_found(lines, d, MediaDirection::Inactive);
    direction_is_found(lines, d, MediaDirection::SendOnly);
    direction_is_found(lines, d, MediaDirection::RecvOnly);
    between_line_ends(MediaDirection::Inactive);
    between_line_ends(MediaDirection::SendOnly);
    between_line_ends(MediaDirection::RecvOnly);
}

/// An answer that is rewritten for the same offer again stays as it is.
pub proof fn rewriting_again_changes_nothing(answer: Seq<char>, offer: Seq<char>)
    ensures
        answer_lines(lines_text(answer_lines(answer, offer)), offer) == answer_lines(answer, offer),
{
    let lines = answer_lines(answer, offer);
    answer_lines_facts(answer, offer);
    lines_are_read_back(lines);
    other_lines_of_more(lines, Seq::empty());
    direction_is_left_out(
        other_lines(split_text(answer, "\r\n"@)),
        direction_of(offer).mirrored().line_text(),
    );
}

/// The direction that each side sees mirrors what the other sees.
pub proof fn mirroring_is_an_involution(d: MediaDirection)
    ensures
        d.mirrored().mirrored() == d,
{
}

/// The candidate that a line of a trickled fragment brings.
pub open spec fn candidate_of(line: Seq<char>) -> Option<Seq<char>> {
    let t = trimmed(line);
    if has_prefix(t, "a=candidate:"@) {
        Some(trimmed(t.skip(12)))
    } else if has_prefix(t, "candidate:"@) {
        Some(trimmed(t.skip(10)))
    } else {
        None
    }
}

/// The candidates that the lines bring, in order.
pub open spec fn candidates_of(lines: Seq<Seq<char>>) -> Seq<Seq<char>>
    decreases lines.len(),
{
    if lines.len() == 0 {
        Seq::empty()
    } else {
        match candidate_of(lines.last()) {
            Some(c) => candidates_of(lines.drop_last()).push(c),
            None => candidates_of(lines.drop_last()),
        }
    }
}

fn parse_candidate(line: &str) -> (r: Option<String>)
    ensures
        opt_text(r) == candidate_of(line@),
{
    let t = trim(line);
    let v = chars_of(t.as_str());
    if starts_with(t.as_str(), "a=candidate:") {
        proof {
            reveal_strlit("a=candidate:");
        }
        let c = string_of(&v, 12, v.len());
        assert(c@ =~= t@.skip(12));
        Some(trim(c.as_str()))
    } else if starts_with(t.as_str(), "candidate:") {
        proof {
            reveal_strlit("candidate:");
        }
        let c = string_of(&v, 10, v.len());
        assert(c@ =~= t@.skip(10));
        Some(trim(c.as_str()))
    } else {
        None
    }
}

/// The candidates of a trickled fragment, in order.
pub fn trickled_candidates(payload: &str) -> (r: Vec<String>)
    ensures
        texts(r@) == candidates_of(split_on(payload@, '\n')),
{
    let lines = split(payload, '\n');
    let ghost all = split_on(payload@, '\n');
    let mut out: Vec<String> = Vec::new();
    let mut i: usize = 0;
    assert(texts(out@) =~= candidates_of(all.take(0)));
    while i < lines.len()
        invariant
            i <= lines.len(),
            texts(lines@) == all,
            texts(out@) == candidates_of(all.take(i as int)),
        decreases lines.len() - i,
    {
        let ghost before = texts(out@);
        assert(all.take(i + 1).drop_last() =~= all.take(i as int));
        assert(all.take(i + 1).last() == lines@[i as int]@);
        if let Some(c) = parse_candidate(lines[i].as_str()) {
            let ghost text = c@;
            out.push(c);
            assert(texts(out@) =~= before.push(text));
        }
        i += 1;
    }
    assert(all.take(i as int) =~= all);
    out
}

/// Whether a text stands in another from position `i` on.
pub open spec fn stands_at(text: Seq<char>, part: Seq<char>, i: int) -> bool {
    &&& 0 <= i <= text.len() - part.len()
    &&& forall|j: int| 0 <= j < part.len() ==> text[i + j] == #[trigger] part[j]
}

/// Whether a text stands somewhere in another.
pub open spec fn stands_in(text: Seq<char>, part: Seq<char>) -> bool {
    exists|i: int| #[trigger] stands_at(text, part, i)
}

/// Whether a description has a line of its own behind another: between two line ends,
/// or behind the last one.
pub open spec fn says(sdp: Seq<char>, line: Seq<char>) -> bool {
    ||| stands_in(sdp, seq!['\r', '\n'] + line + seq!['\r', '\n'])
    ||| stands_at(sdp, seq!['\r', '\n'] + line, sdp.len() - line.len() - 2)
}

/// A part stands in a text exactly where each of its characters does.
pub proof fn standing_is_occurring(text: Seq<char>, part: Seq<char>)
    ensures
        forall|i: int| #![trigger stands_at(text, part, i)] stands_at(text, part, i) == occurs_at(
            text,
            part,
            i,
        ),
        forall|i: int| #![trigger occurs_at(text, part, i)] stands_at(text, part, i) == occurs_at(
            text,
            part,
            i,
        ),
        stands_at(text, part, text.len() - part.len()) == has_suffix(text, part),
{
    assert forall|i: int| stands_at(text, part, i) == occurs_at(text, part, i) by {
        if occurs_at(text, part, i) {
            let s = text.subrange(i, i + part.len());
            assert forall|j: int| 0 <= j < part.len() implies text[i + j] == #[trigger] part[j] by {
                assert(s[j] == text[i + j]);
            }
        }
        if stands_at(text, part, i) {
            assert(text.subrange(i, i + part.len()) =~= part);
        }
    }
    let n = text.len() - part.len();
    if n >= 0 {
        assert(text.skip(n) =~= text.subrange(n, n + part.len()));
    }
}

proof fn said_lines(sdp: Seq<char>, line: Seq<char>, between: Seq<char>, last: Seq<char>)
    requires
        between == seq!['\r', '\n'] + line + seq!['\r', '\n'],
        last == seq!['\r', '\n'] + line,
    ensures
        says(sdp, line) == (occurs(sdp, between) || has_suffix(sdp, last)),
{
    standing_is_occurring(sdp, between);
    standing_is_occurring(sdp, last);
    if stands_in(sdp, between) {
        let i = choose|i: int| #[trigger] stands_at(sdp, between, i);
        assert(occurs_at(sdp, between, i));
    }
    if occurs(sdp, between) {
        let i = choose|i: int| occurs_at(sdp, between, i);
        assert(stands_at(sdp, between, i));
    }
}

/// The direction of a description is what its lines say: no media at all where one says
/// `a=inactive`, one way where one says `a=sendonly` or `a=recvonly`, in this order, and
/// both ways where none of them stands there.
pub proof fn direction_is_what_the_lines_say(sdp: Seq<char>)
    ensures
        direction_of(sdp) is Inactive <==> says(sdp, "a=inactive"@),
        direction_of(sdp) is SendOnly <==> says(sdp, "a=sendonly"@) && !says(sdp, "a=inactive"@),
        direction_of(sdp) is RecvOnly <==> says(sdp, "a=recvonly"@) && !says(sdp, "a=inactive"@)
            && !says(sdp, "a=sendonly"@),
        direction_of(sdp) is SendRecv <==> !says(sdp, "a=inactive"@) && !says(sdp, "a=sendonly"@)
            && !says(sdp, "a=recvonly"@),
{
    reveal_strlit("a=inactive");
    reveal_strlit("a=sendonly");
    reveal_strlit("a=recvonly");
    reveal_strlit("\r\na=inactive\r\n");
    reveal_strlit("\r\na=sendonly\r\n");
    reveal_strlit("\r\na=recvonly\r\n");
    reveal_strlit("\r\na=inactive");
    reveal_strlit("\r\na=sendonly");
    reveal_strlit("\r\na=recvonly");
    let e = seq!['\r', '\n'];
    assert("\r\na=inactive\r\n"@ =~= e + "a=inactive"@ + e);
    assert("\r\na=sendonly\r\n"@ =~= e + "a=sendonly"@ + e);
    assert("\r\na=recvonly\r\n"@ =~= e + "a=recvonly"@ + e);
    assert("\r\na=inactive"@ =~= e + "a=inactive"@);
    assert("\r\na=sendonly"@ =~= e + "a=sendonly"@);
    assert("\r\na=recvonly"@ =~= e + "a=recvonly"@);
    said_lines(sdp, "a=inactive"@, "\r\na=inactive\r\n"@, "\r\na=inactive"@);
    said_lines(sdp, "a=sendonly"@, "\r\na=sendonly\r\n"@, "\r\na=sendonly"@);
    said_lines(sdp, "a=recvonly"@, "\r\na=recvonly\r\n"@, "\r\na=recvonly"@);
}

/// The answer to an offer has exactly one line of direction: what the offerer only sends
/// is only received, what it only receives is only sent, and what flows both ways or not
/// at all does so in the answer too. All other lines stay, but for empty ones, and none
/// is added.
pub proof fn answer_mirrors_the_offer(answer: Seq<char>, offer: Seq<char>)
    ensures
        ({
            let lines = answer_lines(answer, offer);
            let mirrored = if says(offer, "a=inactive"@) {
                "a=inactive"@
            } else if says(offer, "a=sendonly"@) {
                "a=recvonly"@
            } else if says(offer, "a=recvonly"@) {
                "a=sendonly"@
            } else {
                "a=sendrecv"@
            };
            &&& lines.contains(mirrored)
            &&& forall|x: Seq<char>| #[trigger]
                lines.contains(x) ==> x == mirrored || (split_text(answer, "\r\n"@).contains(x)
                    && x.len() > 0)
            &&& forall|x: Seq<char>| #[trigger]
                lines.contains(x) && (x == "a=sendrecv"@ || x == "a=sendonly"@ || x == "a=recvonly"@
                    || x == "a=inactive"@) ==> x == mirrored
            &&& forall|x: Seq<char>| #[trigger]
                split_text(answer, "\r\n"@).contains(x) && x.len() > 0 && x != "a=sendrecv"@ && x
                    != "a=sendonly"@ && x != "a=recvonly"@ && x != "a=inactive"@ ==> lines.contains(x)
            &&& direction_count(lines) == 1
        }),
{
    let all = split_text(answer, "\r\n"@);
    let others = other_lines(all);
    let d = direction_of(offer).mirrored().line_text();
    let lines = answer_lines(answer, offer);
    direction_is_what_the_lines_say(offer);
    answer_has_one_direction(answer, offer);
    answer_lines_facts(answer, offer);
    with_direction_facts(others, d);
    with_direction_keeps(others, d);
    other_lines_are_kept(all);
    assert forall|x: Seq<char>| #[trigger] lines.contains(x) implies x == d || (all.contains(x)
        && x.len() > 0) by {
        let i = choose|i: int| 0 <= i < lines.len() && lines[i] == x;
        assert(with_direction(others, d)[i] == x);
    }
}

proof fn with_direction_keeps(lines: Seq<Seq<char>>, line: Seq<char>)
    ensures
        forall|x: Seq<char>| #[trigger] lines.contains(x) ==> with_direction(lines, line).contains(x),
    decreases lines.len(),
{
    if lines.len() > 0 {
        let rest = lines.drop_first();
        let out = with_direction(lines, line);
        with_direction_keeps(rest, line);
        assert forall|x: Seq<char>| #[trigger] lines.contains(x) implies out.contains(x) by {
            let i = choose|i: int| 0 <= i < lines.len() && lines[i] == x;
            if i == 0 {
                assert(out[0] == x);
            } else {
                assert(rest[i - 1] == x);
                assert(rest.contains(x));
                if has_prefix(lines[0], "m=audio "@) {
                    assert(out[i + 1] == x);
                } else {
                    let w = with_direction(rest, line);
                    assert(w.contains(x));
                    let k = choose|k: int| 0 <= k < w.len() && w[k] == x;
                    assert(out[k + 1] == x);
                }
            }
        }
    }
}

proof fn other_lines_are_kept(lines: Seq<Seq<char>>)
    ensures
        forall|x: Seq<char>| #[trigger]
            other_lines(lines).contains(x) ==> lines.contains(x) && x.len() > 0,
        forall|x: Seq<char>| #[trigger]
            lines.contains(x) && x.len() > 0 && !is_direction_line(x) ==> other_lines(
                lines,
            ).contains(x),
    decreases lines.len(),
{
    if lines.len() > 0 {
        let rest = lines.drop_first();
        let out = other_lines(lines);
        let tail = other_lines(rest);
        other_lines_are_kept(rest);
        let kept = !(lines[0].len() == 0 || is_direction_line(lines[0]));
        assert forall|x: Seq<char>| #[trigger] out.contains(x) implies lines.contains(x) && x.len()
            > 0 by {
            let i = choose|i: int| 0 <= i < out.len() && out[i] == x;
            if kept && i == 0 {
                assert(lines[0] == x);
            } else {
                assert(tail[if kept {
                    i - 1
                } else {
                    i
                }] == x);
                assert(tail.contains(x));
                let k = choose|k: int| 0 <= k < rest.len() && rest[k] == x;
                assert(lines[k + 1] == x);
            }
        }
        assert forall|x: Seq<char>| #[trigger]
            lines.contains(x) && x.len() > 0 && !is_direction_line(x) implies out.contains(x) by {
            let i = choose|i: int| 0 <= i < lines.len() && lines[i] == x;
            if i == 0 {
                assert(out[0] == x);
            } else {
                assert(rest[i - 1] == x);
                assert(rest.contains(x));
                let k = choose|k: int| 0 <= k < tail.len() && tail[k] == x;
                assert(out[if kept {
                    k + 1
                } else {
                    k
                }] == x);
            }
        }
    }
}

/// Each line of a fragment gives one candidate, in order, with or without `a=` before it;
/// lines of other kinds give none.
pub proof fn candidates_are_those_of_the_lines(a: Seq<Seq<char>>, b: Seq<Seq<char>>, c: Seq<char>)
    requires
        c.len() > 0,
        !is_white(c[0]) && !is_white(c.last()),
    ensures
        candidates_of(a + b) == candidates_of(a) + candidates_of(b),
        candidate_of("candidate:"@ + c) == Some(c),
        candidate_of("a=candidate:"@ + c) == Some(c),
        c[0] != 'a' && c[0] != 'c' ==> candidate_of(c) is None,
    decreases b.len(),
{
    reveal_strlit("candidate:");
    reveal_strlit("a=candidate:");
    text_without_white_ends_is_trimmed(c);
    let p = "candidate:"@ + c;
    let q = "a=candidate:"@ + c;
    text_without_white_ends_is_trimmed(p);
    text_without_white_ends_is_trimmed(q);
    assert(p.take(10) =~= "candidate:"@);
    assert(p.skip(10) =~= c);
    assert(q.take(12) =~= "a=candidate:"@);
    assert(q.skip(12) =~= c);
    if has_prefix(p, "a=candidate:"@) {
        assert(p.take(12)[0] == 'c');
    }
    if has_prefix(c, "a=candidate:"@) {
        assert(c.take(12)[0] == c[0]);
    }
    if has_prefix(c, "candidate:"@) {
        assert(c.take(10)[0] == c[0]);
    }
    if b.len() > 0 {
        candidates_are_those_of_the_lines(a, b.drop_last(), c);
        assert((a + b).drop_last() =~= a + b.drop_last());
        assert((a + b).last() == b.last());
        assert(candidates_of(a + b) =~= candidates_of(a) + candidates_of(b));
    } else {
        assert(a + b =~= a);
        assert(candidates_of(b) =~= Seq::empty());
        assert(candidates_of(a + b) =~= candidates_of(a) + candidates_of(b));
    }
}

} // verus!
