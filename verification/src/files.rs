//! Source files and the ranges that they own in the session-wide stream of
//! source bytes.

use vstd::prelude::*;
use crate::span::Span;

verus! {

/// A registered source file: its name, its bytes, and the range
/// `[start, end)` that it owns in the session-wide stream of source bytes.
#[derive(Clone, Debug)]
pub struct SourceFile {
    pub name: String,
    pub contents: Vec<u8>,
    pub start: usize,
    pub end: usize,
}

impl SourceFile {
    /// The range covers as many bytes as the file holds.
    pub open spec fn wf(&self) -> bool {
        self.start + self.contents@.len() == self.end
    }

    /// Whether the file's range holds the whole of `span`.
    pub open spec fn covers(&self, span: Span) -> bool {
        self.start <= span.start && span.start <= span.end && span.end <= self.end
    }

    /// The range that the file owns.
    pub fn span(&self) -> (span: Span)
        ensures
            span.start == self.start,
            span.end == self.end,
    {
        Span { start: self.start, end: self.end }
    }
}

/// The bytes of a file that `span` covers.
pub open spec fn span_bytes(file: SourceFile, span: Span) -> Seq<u8> {
    file.contents@.subrange(span.start - file.start, span.end - file.start)
}

/// The files lie one behind the other from offset `start` on, each with a
/// range as long as its contents.
pub open spec fn files_chain(files: Seq<SourceFile>, start: int) -> bool {
    &&& forall|i: int| 0 <= i < files.len() ==> (#[trigger] files[i]).wf()
    &&& files.len() > 0 ==> files[0].start == start
    &&& forall|i: int, j: int|
        0 <= i && j == i + 1 && j < files.len() ==> (#[trigger] files[i]).end == (
        #[trigger] files[j]).start
}

/// Where the next file starts: behind the last one, or at `start` where there is none.
pub open spec fn chain_end(files: Seq<SourceFile>, start: int) -> int {
    if files.len() == 0 {
        start
    } else {
        files.last().end as int
    }
}

/// The index of the first file whose range holds the whole of `span`.
pub open spec fn first_covering(files: Seq<SourceFile>, span: Span) -> Option<int>
    decreases files.len(),
{
    if files.len() == 0 {
        None
    } else {
        match first_covering(files.drop_last(), span) {
            Some(i) => Some(i),
            None => if files.last().covers(span) {
                Some(files.len() - 1)
            } else {
                None
            },
        }
    }
}

/// What `first_covering` finds: a file that covers the span, before which no
/// file covers it; or that no file covers it.
pub proof fn lemma_first_covering(files: Seq<SourceFile>, span: Span)
    ensures
        match first_covering(files, span) {
            Some(i) => 0 <= i < files.len() && files[i].covers(span) && forall|j: int|
                0 <= j < i ==> !(#[trigger] files[j]).covers(span),
            None => forall|j: int| 0 <= j < files.len() ==> !(#[trigger] files[j]).covers(span),
        },
    decreases files.len(),
{
    if files.len() > 0 {
        lemma_first_covering(files.drop_last(), span);
        let front = files.drop_last();
        assert forall|j: int| 0 <= j < front.len() implies front[j] == files[j] by {}
        match first_covering(front, span) {
            Some(i) => {
                assert(files[i] == front[i]);
                assert forall|j: int| 0 <= j < i implies !(#[trigger] files[j]).covers(span) by {
                    assert(front[j] == files[j]);
                }
            },
            None => {
                assert forall|j: int| 0 <= j < files.len() - 1 implies !(#[trigger] files[j]).covers(
                    span,
                ) by {
                    assert(front[j] == files[j]);
                }
            },
        }
    }
}

/// The first file of two lists that covers a span is the first such file of
/// the first list, or else the first such file of the second.
pub proof fn lemma_first_covering_split(files: Seq<SourceFile>, more: Seq<SourceFile>, span: Span)
    ensures
        first_covering(files + more, span) == match first_covering(files, span) {
            Some(i) => Some(i),
            None => match first_covering(more, span) {
                Some(i) => Some(files.len() + i),
                None => None,
            },
        },
{
    let all = files + more;
    lemma_first_covering(all, span);
    lemma_first_covering(files, span);
    lemma_first_covering(more, span);
    assert forall|j: int| 0 <= j < files.len() implies all[j] == files[j] by {}
    assert forall|j: int| 0 <= j < more.len() implies all[files.len() + j] == more[j] by {}
    match first_covering(all, span) {
        Some(k) => {
            if k < files.len() {
                assert(files[k].covers(span));
                let i = first_covering(files, span).unwrap();
                assert(all[i].covers(span));
                if i < k {
                    assert(all[i] == files[i]);
                } else if k < i {
                    assert(files[k] == all[k]);
                }
            } else {
                assert(more[k - files.len()].covers(span));
                if first_covering(files, span).is_some() {
                    let i = first_covering(files, span).unwrap();
                    assert(all[i] == files[i]);
                } else {
                    let i = first_covering(more, span).unwrap();
                    assert(all[files.len() + i].covers(span));
                    if i < k - files.len() {
                        assert(all[files.len() + i] == more[i]);
                    } else if k - files.len() < i {
                        assert(more[k - files.len()] == all[k]);
                    }
                }
            }
        },
        None => {
            if first_covering(files, span).is_some() {
                let i = first_covering(files, span).unwrap();
                assert(all[i] == files[i]);
            } else if first_covering(more, span).is_some() {
                let i = first_covering(more, span).unwrap();
                assert(all[files.len() + i] == more[i]);
            }
        },
    }
}

/// A chain of files followed by a chain that starts where the first one ends is a chain.
pub proof fn lemma_chain_continued(files: Seq<SourceFile>, more: Seq<SourceFile>, start: int)
    requires
        files_chain(files, start),
        files_chain(more, chain_end(files, start)),
    ensures
        files_chain(files + more, start),
        chain_end(files + more, start) == chain_end(more, chain_end(files, start)),
{
    let all = files + more;
    let n = files.len() as int;
    assert forall|i: int| 0 <= i < all.len() implies (#[trigger] all[i]).wf() by {
        if i < n {
            assert(all[i] == files[i]);
        } else {
            assert(all[i] == more[i - n]);
        }
    }
    assert forall|i: int, j: int| 0 <= i && j == i + 1 && j < all.len() implies (
    #[trigger] all[i]).end == (#[trigger] all[j]).start by {
        if j < n {
            assert(all[i] == files[i] && all[j] == files[j]);
        } else if i < n {
            assert(all[i] == files[i] && all[j] == more[0]);
            assert(files.last() == files[i]);
        } else {
            assert(all[i] == more[i - n] && all[j] == more[j - n]);
        }
    }
    if n > 0 {
        assert(all[0] == files[0]);
    } else if more.len() > 0 {
        assert(all[0] == more[0]);
    }
    if more.len() > 0 {
        assert(all.last() == more.last());
    } else {
        assert(all =~= files);
    }
}

/// A chain of files is a chain from the start of its first file.
pub proof fn lemma_chain_from_first(files: Seq<SourceFile>, start: int)
    requires
        files_chain(files, start),
    ensures
        files.len() > 0 ==> files_chain(files, files[0].start as int),
{
}

/// No file of a chain starts before the chain does.
pub proof fn lemma_chain_start(files: Seq<SourceFile>, start: int, i: int)
    requires
        files_chain(files, start),
        0 <= i < files.len(),
    ensures
        start <= files[i].start,
    decreases i,
{
    if i > 0 {
        lemma_chain_start(files, start, i - 1);
        assert(files[i - 1].wf());
        assert(files[i - 1].end == files[i].start);
    }
}

/// In a chain of files a later file starts no earlier than an earlier one ends,
/// and no file starts before the chain does.
pub proof fn lemma_chain_ordered(files: Seq<SourceFile>, start: int, i: int, j: int)
    requires
        files_chain(files, start),
        0 <= i <= j < files.len(),
    ensures
        start <= files[i].start <= files[i].end,
        i < j ==> files[i].end <= files[j].start,
        files[i].start <= files[j].start,
        files[i].end <= files[j].end,
    decreases j - i,
{
    lemma_chain_start(files, start, i);
    assert(files[i].wf());
    assert(files[j].wf());
    if i < j {
        lemma_chain_ordered(files, start, i + 1, j);
        assert(files[i].end == files[i + 1].start);
    }
}

/// Among the files of a chain, the first that covers the range of a given
/// file holds, in that range, the bytes of the given file.
pub proof fn lemma_own_span_read(files: Seq<SourceFile>, start: int, k: int)
    requires
        files_chain(files, start),
        0 <= k < files.len(),
    ensures
        ({
            let span = Span { start: files[k].start, end: files[k].end };
            &&& first_covering(files, span).is_some()
            &&& span_bytes(files[first_covering(files, span).unwrap()], span) == files[k].contents@
            &&& files[k].contents@.len() == files[k].end - files[k].start
        }),
{
    let span = Span { start: files[k].start, end: files[k].end };
    assert(files[k].wf());
    assert(files[k].covers(span));
    lemma_first_covering(files, span);
    let i = first_covering(files, span).unwrap();
    assert(i <= k);
    assert(files[i].wf());
    if i < k {
        lemma_chain_ordered(files, start, i, k);
        assert(span_bytes(files[i], span) =~= files[k].contents@);
    } else {
        assert(span_bytes(files[i], span) =~= files[k].contents@);
    }
}

} // verus!
