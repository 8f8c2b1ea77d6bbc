//! Reading a span of source for a diagnostic: the bytes, the file they are
//! from, and the line and column at which they begin. Lines and columns are
//! counted by the `miette` crate, on the bytes of the one file that holds the
//! span; what it answers in offsets of that file is put back into offsets of
//! the session-wide stream.

use vstd::prelude::*;
use vstd::slice::slice_subrange;
use crate::files::{first_covering, SourceFile};
use crate::error::EngineError;
use crate::span::Span;

verus! {

/// What `miette` answers to the question for a span of one buffer: where in
/// the buffer the answer begins, how many bytes it has, the line and column of
/// its beginning, both counted from 0, and the number of lines it was given.
#[derive(Clone, Copy, Debug, PartialEq, Eq, Structural)]
pub struct LocalReading {
    pub offset: usize,
    pub len: usize,
    pub line: usize,
    pub column: usize,
    pub line_count: usize,
}

/// What a read of a span gives: the bytes, the name of the file that holds
/// them (none for what was typed at the prompt), the part of the session-wide
/// stream that the bytes are, and where they begin in their file.
#[derive(Debug)]
pub struct SourceReading<'a> {
    pub data: &'a [u8],
    pub name: Option<String>,
    pub span: Span,
    pub line: usize,
    pub column: usize,
    pub line_count: usize,
}

/// What `miette`'s `read_span` for byte buffers answers for the buffer
/// `bytes`, the span of `len` bytes from `offset` on, which lies within the
/// buffer, and the given numbers of lines of context.
pub uninterp spec fn local_reading(
    bytes: Seq<u8>,
    offset: int,
    len: int,
    context_lines_before: int,
    context_lines_after: int,
) -> LocalReading;

/// Calls `miette::SourceCode::read_span` on a byte buffer and takes the
/// numbers out of what it returns. The span asked for has to lie within the
/// buffer. Trusted: for such a span `miette` answers, and does not fail; the
/// answer depends on the arguments alone; and the part of the buffer that it
/// names lies within the buffer.
#[verifier::external_body]
fn read_local_span(
    bytes: &[u8],
    offset: usize,
    len: usize,
    context_lines_before: usize,
    context_lines_after: usize,
) -> (reading: Option<LocalReading>)
    requires
        offset + len <= bytes@.len(),
    ensures
        reading == Some(
            local_reading(
                bytes@,
                offset as int,
                len as int,
                context_lines_before as int,
                context_lines_after as int,
            ),
        ),
        reading matches Some(local) ==> local.offset + local.len <= bytes@.len(),
{
    let span = miette::SourceSpan::from((offset, len));
    match miette::SourceCode::read_span(bytes, &span, context_lines_before, context_lines_after) {
        Ok(contents) => Some(
            LocalReading {
                offset: miette::SpanContents::span(&*contents).offset(),
                len: miette::SpanContents::span(&*contents).len(),
                line: miette::SpanContents::line(&*contents),
                column: miette::SpanContents::column(&*contents),
                line_count: miette::SpanContents::line_count(&*contents),
            },
        ),
        Err(_) => None,
    }
}

/// The name that marks what was typed at the prompt rather than read from a file.
pub open spec fn prompt_name() -> Seq<char> {
    "<cli>"@
}

/// The name under which a reading of `file` goes: that of the file, or none
/// for the prompt.
pub open spec fn reading_name(file: SourceFile) -> Option<Seq<char>> {
    if file.name@ == prompt_name() {
        None
    } else {
        Some(file.name@)
    }
}

/// Whether `reading` is the answer `local` for `file`, put into offsets of the
/// session-wide stream.
pub open spec fn is_in_stream_offsets(
    reading: SourceReading,
    file: SourceFile,
    local: LocalReading,
) -> bool {
    &&& reading.data@ == file.contents@.subrange(local.offset as int, local.offset + local.len)
    &&& reading.span.start == file.start + local.offset
    &&& reading.span.end == file.start + local.offset + local.len
    &&& reading.line == local.line
    &&& reading.column == local.column
    &&& reading.line_count == local.line_count
    &&& match reading_name(file) {
        Some(name) => reading.name.is_some() && reading.name.unwrap()@ == name,
        None => reading.name.is_none(),
    }
}

/// Puts an answer for a span of `file` into offsets of the session-wide stream.
pub fn to_stream_offsets<'a>(file: &'a SourceFile, local: LocalReading) -> (reading: SourceReading<'a>)
    requires
        file.wf(),
        local.offset + local.len <= file.contents@.len(),
    ensures
        is_in_stream_offsets(reading, *file, local),
{
    let data = slice_subrange(file.contents.as_slice(), local.offset, local.offset + local.len);
    let prompt = "<cli>".to_owned();
    let name = if file.name == prompt {
        None
    } else {
        Some(file.name.clone())
    };
    SourceReading {
        data,
        name,
        span: Span { start: file.start + local.offset, end: file.start + local.offset + local.len },
        line: local.line,
        column: local.column,
        line_count: local.line_count,
    }
}

/// Reads `span`, which `file` covers, with lines of context around it.
pub fn read_file_span<'a>(
    file: &'a SourceFile,
    span: Span,
    context_lines_before: usize,
    context_lines_after: usize,
) -> (reading: SourceReading<'a>)
    requires
        file.wf(),
        file.covers(span),
    ensures
        is_in_stream_offsets(
            reading,
            *file,
            local_reading(
                file.contents@,
                span.start - file.start,
                span.end - span.start,
                context_lines_before as int,
                context_lines_after as int,
            ),
        ),
{
    let answer = read_local_span(
        file.contents.as_slice(),
        span.start - file.start,
        span.end - span.start,
        context_lines_before,
        context_lines_after,
    );
    to_stream_offsets(file, answer.unwrap())
}

/// Whether `result` is what a read of `span` gives over the given files: an
/// error where no file covers the span; else what the first covering file
/// gives for the part of it that the span is.
pub open spec fn spec_read_span(
    result: Result<SourceReading, EngineError>,
    files: Seq<SourceFile>,
    span: Span,
    context_lines_before: usize,
    context_lines_after: usize,
) -> bool {
    match first_covering(files, span) {
        Some(i) => result.is_ok() && is_in_stream_offsets(
            result.unwrap(),
            files[i],
            local_reading(
                files[i].contents@,
                span.start - files[i].start,
                span.end - span.start,
                context_lines_before as int,
                context_lines_after as int,
            ),
        ),
        None => result.is_err() && result.unwrap_err() == EngineError::SpanOutOfRange(span),
    }
}

} // verus!
