//! The per-pipeline output stream: an append-only, line-delimited sink
//! shared (under mutual exclusion, imposed by the harness) by all query
//! tasks of one pipeline. Each write appends exactly one self-contained
//! record terminated by a line boundary, so a reader can split the stream
//! back into the records that were written — never a partial or merged
//! record.

use vstd::prelude::*;

use crate::record::{line_free, lemma_record_text_line_free, record_text, serialize_record,
    ResultRecord};

verus! {

/// The byte-level content of a stream holding the given lines, in order:
/// each line followed by one line boundary.
pub open spec fn frames(lines: Seq<Seq<char>>) -> Seq<char>
    decreases lines.len(),
{
    if lines.len() == 0 {
        Seq::empty()
    } else {
        lines.first() + seq!['\n'] + frames(lines.drop_first())
    }
}

/// All lines of a sequence are free of line boundaries.
pub open spec fn all_line_free(lines: Seq<Seq<char>>) -> bool {
    forall|k: int| 0 <= k < lines.len() ==> line_free(#[trigger] lines[k])
}

/// Appending a line to the sequence appends its frame to the content.
pub proof fn lemma_frames_push(lines: Seq<Seq<char>>, line: Seq<char>)
    ensures
        frames(lines.push(line)) == frames(lines) + line + seq!['\n'],
    decreases lines.len(),
{
    if lines.len() == 0 {
        assert(lines.push(line).drop_first() =~= Seq::<Seq<char>>::empty());
        assert(frames(Seq::<Seq<char>>::empty()) == Seq::<char>::empty());
        assert(lines.push(line).first() == line);
        assert(frames(lines.push(line)) =~= frames(lines) + line + seq!['\n']);
    } else {
        assert(lines.push(line).drop_first() =~= lines.drop_first().push(line));
        lemma_frames_push(lines.drop_first(), line);
        assert(frames(lines.push(line)) =~= frames(lines) + line + seq!['\n']);
    }
}

/// Framing is injective on boundary-free lines: the stream content
/// determines exactly the records that were written, so no truncated or
/// merged record is ever observable.
pub proof fn lemma_frames_injective(l1: Seq<Seq<char>>, l2: Seq<Seq<char>>)
    requires
        all_line_free(l1),
        all_line_free(l2),
        frames(l1) == frames(l2),
    ensures
        l1 == l2,
    decreases l1.len(),
{
    if l1.len() == 0 {
        if l2.len() != 0 {
            assert(frames(l2).len() >= 1);
        }
        assert(l1 =~= l2);
    } else if l2.len() == 0 {
        assert(frames(l1).len() >= 1);
    } else {
        let a = l1.first();
        let b = l2.first();
        let s = frames(l1);
        assert(line_free(a) && line_free(b));
        assert(s == a + seq!['\n'] + frames(l1.drop_first()));
        assert(s == b + seq!['\n'] + frames(l2.drop_first()));
        assert forall|k: int| 0 <= k < a.len() implies #[trigger] s[k] == a[k] by {}
        assert(s[a.len() as int] == '\n');
        assert forall|k: int| 0 <= k < b.len() implies #[trigger] s[k] == b[k] by {}
        assert(s[b.len() as int] == '\n');
        if a.len() < b.len() {
            assert(s[a.len() as int] == b[a.len() as int]);
            assert(false);
        }
        if b.len() < a.len() {
            assert(s[b.len() as int] == a[b.len() as int]);
            assert(false);
        }
        assert forall|k: int| 0 <= k < a.len() implies #[trigger] a[k] == b[k] by {
            assert(s[k] == a[k]);
            assert(s[k] == b[k]);
        }
        assert(a =~= b);
        let r1 = frames(l1.drop_first());
        let r2 = frames(l2.drop_first());
        assert forall|k: int| 0 <= k < r1.len() implies #[trigger] r1[k] == s[a.len() + 1 + k] by {}
        assert forall|k: int| 0 <= k < r2.len() implies #[trigger] r2[k] == s[b.len() + 1 + k] by {}
        assert(r1.len() == s.len() - a.len() - 1);
        assert(r2.len() == s.len() - b.len() - 1);
        assert(r1 =~= r2);
        assert(all_line_free(l1.drop_first())) by {
            assert forall|k: int|
                0 <= k < l1.drop_first().len() implies line_free(
                #[trigger] l1.drop_first()[k],
            ) by {
                assert(l1.drop_first()[k] == l1[k + 1]);
            }
        }
        assert(all_line_free(l2.drop_first())) by {
            assert forall|k: int|
                0 <= k < l2.drop_first().len() implies line_free(
                #[trigger] l2.drop_first()[k],
            ) by {
                assert(l2.drop_first()[k] == l2[k + 1]);
            }
        }
        lemma_frames_injective(l1.drop_first(), l2.drop_first());
        assert(l1.len() == l1.drop_first().len() + 1);
        assert(l2.len() == l2.drop_first().len() + 1);
        assert forall|k: int| 0 <= k < l1.len() implies #[trigger] l1[k] == l2[k] by {
            if k == 0 {
                assert(l1[0] == a);
                assert(l2[0] == b);
            } else {
                assert(l1.drop_first()[k - 1] == l1[k]);
                assert(l2.drop_first()[k - 1] == l2[k]);
            }
        }
        assert(l1 =~= l2);
    }
}

/// Two well-formed streams with the same content hold the same records in
/// the same order: a reader of the stream recovers exactly what was
/// written.
pub proof fn lemma_content_determines_records(s1: OutputStream, s2: OutputStream)
    requires
        s1.well_formed(),
        s2.well_formed(),
        s1.data@ == s2.data@,
    ensures
        s1.lines@ == s2.lines@,
{
    lemma_frames_injective(s1.lines@, s2.lines@);
}

/// A single append-only destination for one pipeline's records. The
/// tracked line sequence is the stream's history; the content is always
/// exactly the framing of that history.
pub struct OutputStream {
    pub data: String,
    pub finished: bool,
    pub lines: Ghost<Seq<Seq<char>>>,
}

impl OutputStream {
    /// The stream's content is the framing of the lines written so far,
    /// and every line written was free of line boundaries.
    pub open spec fn well_formed(self) -> bool {
        &&& self.data@ == frames(self.lines@)
        &&& all_line_free(self.lines@)
    }

    /// Opens a fresh, empty stream. Opening anew discards any earlier
    /// content: a re-run overwrites, it does not append.
    pub fn new() -> (s: OutputStream)
        ensures
            s.well_formed(),
            !s.finished,
            s.lines@ == Seq::<Seq<char>>::empty(),
            s.data@ == Seq::<char>::empty(),
    {
        let s = OutputStream { data: String::new(), finished: false, lines: Ghost(Seq::empty()) };
        proof {
            assert(s.data@ =~= frames(s.lines@));
        }
        s
    }

    /// Appends one self-contained line. The append is atomic with respect
    /// to the stream's content: the new content is exactly the old content
    /// followed by this line and its boundary.
    pub fn write_line(&mut self, line: &str)
        requires
            old(self).well_formed(),
            !old(self).finished,
            line_free(line@),
        ensures
            final(self).well_formed(),
            !final(self).finished,
            final(self).lines@ == old(self).lines@.push(line@),
            final(self).data@ == old(self).data@ + line@ + seq!['\n'],
    {
        self.data.append(line);
        self.data.append("\n");
        self.lines = Ghost(self.lines@.push(line@));
        proof {
            reveal_strlit("\n");
            lemma_frames_push(old(self).lines@, line@);
            assert("\n"@ =~= seq!['\n']);
            assert(self.data@ =~= frames(self.lines@));
        }
    }

    /// Serializes one result record and appends it as one line.
    pub fn write_record(&mut self, rec: &ResultRecord)
        requires
            old(self).well_formed(),
            !old(self).finished,
            line_free(rec.alias@),
        ensures
            final(self).well_formed(),
            !final(self).finished,
            final(self).lines@ == old(self).lines@.push(
                record_text(rec.alias@, rec.value as int),
            ),
    {
        let line = serialize_record(rec);
        proof {
            lemma_record_text_line_free(rec.alias@, rec.value as int);
        }
        self.write_line(line.as_str());
    }

    /// Closes the stream. Callable at most once, and only after every
    /// query task of the pipeline has completed; the content is unchanged.
    pub fn finish(&mut self)
        requires
            old(self).well_formed(),
            !old(self).finished,
        ensures
            final(self).well_formed(),
            final(self).finished,
            final(self).lines@ == old(self).lines@,
            final(self).data@ == old(self).data@,
    {
        self.finished = true;
    }
}

} // verus!
