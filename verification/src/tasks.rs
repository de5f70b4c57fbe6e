//! The to-do list's persistent form: a plain text file with one pending
//! entry per line. Rendering and parsing of those bytes live here; the
//! application only moves the bytes to and from the file on disk.

use vstd::prelude::*;

verus! {

/// The line separator of the task file.
pub const NEWLINE: u8 = 10;

/// One to-do entry: whether it is done, and its text as the bytes that
/// would stand on its line of the task file.
#[derive(Debug, PartialEq, Eq)]
pub struct Entry {
    pub done: bool,
    pub desc: Vec<u8>,
}

impl Entry {
    /// A fresh entry.
    pub fn new(done: bool, desc: Vec<u8>) -> (e: Entry)
        ensures
            e.done == done,
            e.desc@ == desc@,
    {
        Entry { done, desc }
    }

    /// The text fits on one line of the task file: it holds no newline.
    pub open spec fn line_safe(self) -> bool {
        forall|i: int| 0 <= i < self.desc@.len() ==> self.desc@[i] != NEWLINE
    }
}

/// The bytes one entry contributes to the file: its text and a newline if
/// it is pending, nothing at all if it is done.
pub open spec fn spec_line(e: Entry) -> Seq<u8> {
    if e.done {
        Seq::empty()
    } else {
        e.desc@ + seq![NEWLINE]
    }
}

/// The whole task file for a list of entries: the pending entries' lines
/// in order; done entries are dropped, not retained with a marker.
pub open spec fn spec_render(items: Seq<Entry>) -> Seq<u8>
    decreases items.len(),
{
    if items.len() == 0 {
        Seq::empty()
    } else {
        spec_line(items[0]) + spec_render(items.skip(1))
    }
}

proof fn lemma_render_snoc(items: Seq<Entry>, e: Entry)
    ensures
        spec_render(items.push(e)) == spec_render(items) + spec_line(e),
    decreases items.len(),
{
    if items.len() == 0 {
        assert(items.push(e).skip(1) =~= Seq::<Entry>::empty());
        assert(items.push(e)[0] == e);
        assert(spec_render(items.push(e).skip(1)) == Seq::<u8>::empty());
        assert(spec_render(items.push(e)) == spec_line(e) + Seq::<u8>::empty());
        assert(spec_render(items) == Seq::<u8>::empty());
        assert(spec_line(e) + Seq::<u8>::empty() =~= Seq::<u8>::empty() + spec_line(e));
    } else {
        lemma_render_snoc(items.skip(1), e);
        assert(items.push(e).skip(1) =~= items.skip(1).push(e));
        assert(items.push(e)[0] == items[0]);
        assert(spec_line(items[0]) + (spec_render(items.skip(1)) + spec_line(e)) =~= (spec_line(
            items[0],
        ) + spec_render(items.skip(1))) + spec_line(e));
    }
}

/// Render the list for saving: the pending entries, one per line, in
/// order; done entries are not persisted.
pub fn render_tasks(items: &Vec<Entry>) -> (out: Vec<u8>)
    ensures
        out@ == spec_render(items@),
{
    let mut out: Vec<u8> = Vec::new();
    let mut i: usize = 0;
    while i < items.len()
        invariant
            i <= items@.len(),
            out@ == spec_render(items@.take(i as int)),
        decreases items@.len() - i,
    {
        if !items[i].done {
            let mut k: usize = 0;
            while k < items[i].desc.len()
                invariant
                    i < items@.len(),
                    !items@[i as int].done,
                    k <= items@[i as int].desc@.len(),
                    out@ == spec_render(items@.take(i as int)) + items@[i as int].desc@.take(
                        k as int,
                    ),
                decreases items@[i as int].desc@.len() - k,
            {
                let b = items[i].desc[k];
                out.push(b);
                k += 1;
            }
            out.push(NEWLINE);
            proof {
                let e = items@[i as int];
                assert(e.desc@.take(e.desc@.len() as int) =~= e.desc@);
                assert(out@ =~= spec_render(items@.take(i as int)) + spec_line(e));
            }
        }
        proof {
            lemma_render_snoc(items@.take(i as int), items@[i as int]);
            assert(items@.take(i as int).push(items@[i as int]) =~= items@.take(i + 1));
            if items@[i as int].done {
                assert(out@ =~= spec_render(items@.take(i as int)) + spec_line(items@[i as int]));
            }
        }
        i += 1;
    }
    proof {
        assert(items@.take(items@.len() as int) =~= items@);
    }
    out
}

/// Index of the first newline in `bytes`, or their length when there is
/// none.
pub open spec fn first_newline(bytes: Seq<u8>) -> nat
    decreases bytes.len(),
{
    if bytes.len() == 0 {
        0
    } else if bytes[0] == NEWLINE {
        0
    } else {
        (1 + first_newline(bytes.skip(1))) as nat
    }
}

/// The lines of a task file, split at newlines. A trailing fragment with
/// no final newline still counts as a line, as it does when the file is
/// read back line by line.
pub open spec fn spec_split_lines(bytes: Seq<u8>) -> Seq<Seq<u8>>
    decreases bytes.len(),
{
    if bytes.len() == 0 {
        Seq::empty()
    } else {
        let i = first_newline(bytes) as int;
        if i >= bytes.len() {
            seq![bytes]
        } else {
            seq![bytes.take(i)] + spec_split_lines(bytes.skip(i + 1))
        }
    }
}

proof fn lemma_first_newline_at(bytes: Seq<u8>, i: int)
    requires
        0 <= i <= bytes.len(),
        forall|k: int| 0 <= k < i ==> bytes[k] != NEWLINE,
        i < bytes.len() ==> bytes[i] == NEWLINE,
    ensures
        first_newline(bytes) == i,
    decreases bytes.len(),
{
    if bytes.len() == 0 || i == 0 {
    } else {
        assert forall|k: int| 0 <= k < i - 1 implies bytes.skip(1)[k] != NEWLINE by {
            assert(bytes.skip(1)[k] == bytes[k + 1]);
        }
        if i - 1 < bytes.skip(1).len() {
            assert(bytes.skip(1)[i - 1] == bytes[i]);
        }
        lemma_first_newline_at(bytes.skip(1), i - 1);
    }
}

/// The texts of a list of entries, in order.
pub open spec fn descs_of(items: Seq<Entry>) -> Seq<Seq<u8>> {
    items.map_values(|e: Entry| e.desc@)
}

/// Parse a task file read back from disk: every line becomes one pending
/// entry, in file order.
pub fn parse_tasks(bytes: &Vec<u8>) -> (items: Vec<Entry>)
    ensures
        descs_of(items@) == spec_split_lines(bytes@),
        forall|i: int| 0 <= i < items@.len() ==> !items@[i].done,
{
    let mut items: Vec<Entry> = Vec::new();
    let mut pos: usize = 0;
    proof {
        assert(bytes@.skip(0) =~= bytes@);
        assert(descs_of(items@) + spec_split_lines(bytes@) =~= spec_split_lines(bytes@));
    }
    while pos < bytes.len()
        invariant
            pos <= bytes@.len(),
            spec_split_lines(bytes@) == descs_of(items@) + spec_split_lines(
                bytes@.skip(pos as int),
            ),
            forall|i: int| 0 <= i < items@.len() ==> !items@[i].done,
        decreases bytes@.len() - pos,
    {
        let mut j: usize = pos;
        while j < bytes.len() && bytes[j] != NEWLINE
            invariant
                pos <= j <= bytes@.len(),
                forall|k: int| pos <= k < j ==> bytes@[k] != NEWLINE,
            decreases bytes@.len() - j,
        {
            j += 1;
        }
        let mut desc: Vec<u8> = Vec::new();
        let mut k: usize = pos;
        while k < j
            invariant
                pos <= k <= j <= bytes@.len(),
                desc@ == bytes@.subrange(pos as int, k as int),
            decreases j - k,
        {
            let b = bytes[k];
            desc.push(b);
            k += 1;
        }
        let e = Entry { done: false, desc };
        proof {
            let rem = bytes@.skip(pos as int);
            assert forall|t: int| 0 <= t < j - pos implies rem[t] != NEWLINE by {
                assert(rem[t] == bytes@[pos + t]);
            }
            if (j as int) < bytes@.len() {
                assert(rem[j - pos] == bytes@[j as int]);
            }
            lemma_first_newline_at(rem, j - pos);
            assert(rem.take(j - pos) =~= bytes@.subrange(pos as int, j as int));
            if (j as int) < bytes@.len() {
                assert(rem.skip(j - pos + 1) =~= bytes@.skip(j + 1));
                assert(spec_split_lines(rem) == seq![e.desc@] + spec_split_lines(
                    bytes@.skip(j + 1),
                ));
            } else {
                assert(rem =~= bytes@.subrange(pos as int, j as int));
                assert(spec_split_lines(rem) == seq![e.desc@]);
                assert(spec_split_lines(bytes@.skip(j as int)) == Seq::<Seq<u8>>::empty());
            }
            assert(descs_of(items@.push(e)) =~= descs_of(items@).push(e.desc@));
            assert(descs_of(items@) + spec_split_lines(rem) =~= descs_of(items@.push(e))
                + spec_split_lines(bytes@.skip(if (j as int) < bytes@.len() {
                j + 1
            } else {
                j as int
            })));
        }
        items.push(e);
        pos = if j < bytes.len() {
            j + 1
        } else {
            j
        };
    }
    proof {
        assert(bytes@.skip(pos as int) =~= Seq::<u8>::empty());
        assert(descs_of(items@) + Seq::<Seq<u8>>::empty() =~= descs_of(items@));
    }
    items
}

/// The texts of the pending entries of a list, in order: what a save
/// followed by a reload gives back.
pub open spec fn pending_descs(items: Seq<Entry>) -> Seq<Seq<u8>>
    decreases items.len(),
{
    if items.len() == 0 {
        Seq::empty()
    } else if items[0].done {
        pending_descs(items.skip(1))
    } else {
        seq![items[0].desc@] + pending_descs(items.skip(1))
    }
}

proof fn lemma_split_prefix_line(d: Seq<u8>, r: Seq<u8>)
    requires
        forall|k: int| 0 <= k < d.len() ==> d[k] != NEWLINE,
    ensures
        spec_split_lines(d + seq![NEWLINE] + r) == seq![d] + spec_split_lines(r),
{
    let b = d + seq![NEWLINE] + r;
    assert forall|k: int| 0 <= k < d.len() implies b[k] != NEWLINE by {
        assert(b[k] == d[k]);
    }
    assert(b[d.len() as int] == NEWLINE);
    lemma_first_newline_at(b, d.len() as int);
    assert(b.take(d.len() as int) =~= d);
    assert(b.skip(d.len() as int + 1) =~= r);
}

/// Round trip of the task store: rendering a list and splitting the bytes
/// back into lines yields exactly the pending entries' texts, in order —
/// done entries are gone — provided every pending text fits on one line.
pub proof fn lemma_tasks_round_trip(items: Seq<Entry>)
    requires
        forall|i: int| 0 <= i < items.len() && !items[i].done ==> items[i].line_safe(),
    ensures
        spec_split_lines(spec_render(items)) == pending_descs(items),
    decreases items.len(),
{
    if items.len() > 0 {
        assert forall|i: int| 0 <= i < items.skip(1).len() && !items.skip(1)[i].done implies items.skip(
            1,
        )[i].line_safe() by {
            assert(items.skip(1)[i] == items[i + 1]);
        }
        lemma_tasks_round_trip(items.skip(1));
        if items[0].done {
            assert(spec_line(items[0]) + spec_render(items.skip(1)) =~= spec_render(
                items.skip(1),
            ));
        } else {
            assert(items[0].line_safe());
            lemma_split_prefix_line(items[0].desc@, spec_render(items.skip(1)));
            assert(spec_line(items[0]) + spec_render(items.skip(1)) =~= items[0].desc@ + seq![
                NEWLINE,
            ] + spec_render(items.skip(1)));
        }
    }
}

} // verus!
