//! Byte ranges, file paths and subtitle conversion for streaming.
use crate::paths::{
    components, components_of, is_plain_name, join_path, joined_path, law_components_grow_by_a_name,
    lemma_components_grow_by_a_step,
};
use crate::protocol::MediaItem;
use crate::text::{
    all_digits, contains_char, contains_text, decimal, decimal_text, ended_lines, find, has_text,
    is_digit, law_decimal_reads_back, law_lines_make_up_the_text, law_replacing_keeps_the_rest,
    lemma_decimal, lemma_find, lemma_pieces_append, lemma_pieces_push, lines, lines_of, lower,
    numeral_value, opt_text, parse_number, parsed_number, pieces, replace_char, replaced, same_text,
    split_first, split_once, strip_prefix, texts, to_lower, trim, trimmed, white_space,
};
use vstd::prelude::*;
use vstd::utf8::{decode_utf8, valid_utf8};

verus! {

/// The bytes from `start` to `end`, both included.
#[derive(Debug, Clone, Copy, PartialEq, Eq, Structural)]
pub struct ByteRange {
    pub start: u64,
    pub end: u64,
}

/// Why a file cannot be streamed. `Io` holds the text of the I/O error.
#[derive(Debug, PartialEq, Eq)]
pub enum StreamMediaError {
    NotFound,
    MalformedRange(&'static str),
    UnsatisfiableRange { file_len: u64 },
    Io(String),
}

/// What a range header asks for.
pub ghost enum RangeAnswer {
    Range(u64, u64),
    Malformed(Seq<char>),
    Unsatisfiable(u64),
}

/// The answer to a range of the form `start-end` on a file of `file_len > 0`
/// bytes.
pub open spec fn range_between(start: Seq<char>, end: Seq<char>, file_len: u64) -> RangeAnswer {
    if start.len() == 0 {
        match parsed_number(end, u64::MAX as nat) {
            None => RangeAnswer::Malformed(
                "Range suffix must be a valid non-negative integer."@,
            ),
            Some(suffix) => if suffix == 0 {
                RangeAnswer::Unsatisfiable(file_len)
            } else if suffix < file_len {
                RangeAnswer::Range((file_len - suffix) as u64, (file_len - 1) as u64)
            } else {
                RangeAnswer::Range(0, (file_len - 1) as u64)
            },
        }
    } else {
        match parsed_number(start, u64::MAX as nat) {
            None => RangeAnswer::Malformed("Range start must be a valid non-negative integer."@),
            Some(first) => if first >= file_len {
                RangeAnswer::Unsatisfiable(file_len)
            } else if end.len() == 0 {
                RangeAnswer::Range(first as u64, (file_len - 1) as u64)
            } else {
                match parsed_number(end, u64::MAX as nat) {
                    None => RangeAnswer::Malformed(
                        "Range end must be a valid non-negative integer."@,
                    ),
                    Some(last) => if first > last {
                        RangeAnswer::Unsatisfiable(file_len)
                    } else if last < file_len {
                        RangeAnswer::Range(first as u64, last as u64)
                    } else {
                        RangeAnswer::Range(first as u64, (file_len - 1) as u64)
                    },
                }
            },
        }
    }
}

/// The answer to a range header on a file of `file_len` bytes.
pub open spec fn range_answer(header: Seq<char>, file_len: u64) -> RangeAnswer {
    let value = trimmed(header);
    if !"bytes="@.is_prefix_of(value) {
        RangeAnswer::Malformed("Range header must start with 'bytes='."@)
    } else {
        let range = value.skip("bytes="@.len() as int);
        if range.contains(',') {
            RangeAnswer::Malformed("Only a single byte range is supported."@)
        } else if file_len == 0 {
            RangeAnswer::Unsatisfiable(file_len)
        } else {
            match split_first(range, '-') {
                None => RangeAnswer::Malformed(
                    "Range header must use the form 'bytes=start-end'."@,
                ),
                Some((start, end)) => range_between(start, end, file_len),
            }
        }
    }
}

/// Whether a result is the given answer.
pub open spec fn answers(r: Result<ByteRange, StreamMediaError>, answer: RangeAnswer) -> bool {
    match answer {
        RangeAnswer::Range(start, end) => r is Ok && r->Ok_0 == (ByteRange { start, end }),
        RangeAnswer::Malformed(message) => r is Err && (r->Err_0 matches
            StreamMediaError::MalformedRange(text) && text@ == message),
        RangeAnswer::Unsatisfiable(len) => r is Err && (r->Err_0 matches
            StreamMediaError::UnsatisfiableRange { file_len } && file_len == len),
    }
}

/// Reads a range header for a file of `file_len` bytes.
pub fn parse_range_header(header_value: &str, file_len: u64) -> (r: Result<
    ByteRange,
    StreamMediaError,
>)
    ensures
        answers(r, range_answer(header_value@, file_len)),
{
    let value: &str = trim(header_value);
    let range_value: &str = match strip_prefix(value, "bytes=") {
        Some(rest) => {
            assert(rest@ =~= value@.skip("bytes="@.len() as int));
            rest
        },
        None => {
            return Err(
                StreamMediaError::MalformedRange("Range header must start with 'bytes='."),
            );
        },
    };
    if contains_char(range_value, ',') {
        return Err(StreamMediaError::MalformedRange("Only a single byte range is supported."));
    }
    if file_len == 0 {
        return Err(StreamMediaError::UnsatisfiableRange { file_len });
    }
    let (start, end): (&str, &str) = match split_once(range_value, '-') {
        Some(parts) => parts,
        None => {
            return Err(
                StreamMediaError::MalformedRange(
                    "Range header must use the form 'bytes=start-end'.",
                ),
            );
        },
    };
    if start.is_empty() {
        let suffix_len: u64 = match parse_number(end, u64::MAX) {
            Some(number) => number,
            None => {
                return Err(
                    StreamMediaError::MalformedRange(
                        "Range suffix must be a valid non-negative integer.",
                    ),
                );
            },
        };
        if suffix_len == 0 {
            return Err(StreamMediaError::UnsatisfiableRange { file_len });
        }
        let effective_len: u64 = if suffix_len < file_len { suffix_len } else { file_len };
        return Ok(ByteRange { start: file_len - effective_len, end: file_len - 1 });
    }
    let first: u64 = match parse_number(start, u64::MAX) {
        Some(number) => number,
        None => {
            return Err(
                StreamMediaError::MalformedRange(
                    "Range start must be a valid non-negative integer.",
                ),
            );
        },
    };
    if first >= file_len {
        return Err(StreamMediaError::UnsatisfiableRange { file_len });
    }
    let last: u64 = if end.is_empty() {
        file_len - 1
    } else {
        match parse_number(end, u64::MAX) {
            Some(number) => if number < file_len - 1 {
                number
            } else {
                file_len - 1
            },
            None => {
                return Err(
                    StreamMediaError::MalformedRange(
                        "Range end must be a valid non-negative integer.",
                    ),
                );
            },
        }
    };
    if first > last {
        return Err(StreamMediaError::UnsatisfiableRange { file_len });
    }
    Ok(ByteRange { start: first, end: last })
}

/// A range that is granted lies within the file and is not empty.
pub proof fn law_granted_range_is_within_file(header: Seq<char>, file_len: u64)
    ensures
        range_answer(header, file_len) matches RangeAnswer::Range(start, end) ==> start <= end
            && end < file_len,
{
}

/// An empty file grants no range, whatever the header says.
pub proof fn law_empty_file_grants_nothing(header: Seq<char>)
    ensures
        !(range_answer(header, 0) is Range),
{
}

/// What is sent of a file: the status, the first byte, the number of bytes and
/// the headers that follow from them.
#[derive(Debug, PartialEq, Eq)]
pub struct FileResponsePlan {
    pub status: u16,
    pub start: u64,
    pub content_len: u64,
    pub content_length: String,
    pub content_range: Option<String>,
}

/// The value of a content-range header.
pub open spec fn content_range_text(start: u64, end: u64, file_len: u64) -> Seq<char> {
    "bytes "@ + decimal(start as nat) + "-"@ + decimal(end as nat) + "/"@ + decimal(
        file_len as nat,
    )
}

/// Whether `plan` sends the whole file.
pub open spec fn sends_all(plan: FileResponsePlan, file_len: u64) -> bool {
    &&& plan.status == 200
    &&& plan.start == 0
    &&& plan.content_len == file_len
    &&& plan.content_length@ == decimal(file_len as nat)
    &&& plan.content_range is None
}

/// Whether `plan` sends the bytes from `start` to `end`.
pub open spec fn sends_range(plan: FileResponsePlan, start: u64, end: u64, file_len: u64) -> bool {
    &&& plan.status == 206
    &&& plan.start == start
    &&& plan.content_len == end - start + 1
    &&& plan.content_length@ == decimal((end - start + 1) as nat)
    &&& plan.content_range matches Some(text) && text@ == content_range_text(start, end, file_len)
}

/// Decides what is sent of a file of `file_len` bytes. Without a range header
/// the whole file is sent.
pub fn plan_file_response(is_file: bool, file_len: u64, range_header: Option<&str>) -> (r: Result<
    FileResponsePlan,
    StreamMediaError,
>)
    ensures
        !is_file ==> r is Err && r->Err_0 is NotFound,
        is_file && range_header is None ==> r is Ok && sends_all(r->Ok_0, file_len),
        is_file && range_header is Some ==> match range_answer(range_header->0@, file_len) {
            RangeAnswer::Range(start, end) => r is Ok && sends_range(r->Ok_0, start, end, file_len),
            RangeAnswer::Malformed(message) => r is Err && (r->Err_0 matches
                StreamMediaError::MalformedRange(text) && text@ == message),
            RangeAnswer::Unsatisfiable(len) => r is Err && (r->Err_0 matches
                StreamMediaError::UnsatisfiableRange { file_len } && file_len == len),
        },
{
    if !is_file {
        return Err(StreamMediaError::NotFound);
    }
    match range_header {
        None => Ok(
            FileResponsePlan {
                status: 200,
                start: 0,
                content_len: file_len,
                content_length: decimal_text(file_len),
                content_range: None,
            },
        ),
        Some(value) => {
            proof {
                law_granted_range_is_within_file(value@, file_len);
            }
            match parse_range_header(value, file_len) {
                Err(error) => Err(error),
                Ok(range) => {
                    let content_len: u64 = range.end - range.start + 1;
                    Ok(
                        FileResponsePlan {
                            status: 206,
                            start: range.start,
                            content_len,
                            content_length: decimal_text(content_len),
                            content_range: Some(
                                "bytes ".to_owned().concat(decimal_text(range.start).as_str()).concat(
                                    "-",
                                ).concat(decimal_text(range.end).as_str()).concat("/").concat(
                                    decimal_text(file_len).as_str(),
                                ),
                            ),
                        },
                    )
                },
            }
        },
    }
}

/// The content-range header of the answer to a range that cannot be granted.
pub fn unsatisfiable_content_range(file_len: u64) -> (r: String)
    ensures
        r@ == "bytes */"@ + decimal(file_len as nat),
{
    "bytes */".to_owned().concat(decimal_text(file_len).as_str())
}

/// Whether a component of a stored relative path takes part in the file's
/// location: steps to the current or the parent directory do not.
pub open spec fn is_step(component: Seq<char>) -> bool {
    component.len() > 0 && component != "."@ && component != ".."@
}

/// `root` extended by the first `n` of the given components, without directory
/// steps.
pub open spec fn resolved(root: Seq<char>, parts: Seq<Seq<char>>, n: int) -> Seq<char>
    decreases n,
{
    if n <= 0 {
        root
    } else if is_step(parts[n - 1]) {
        joined_path(resolved(root, parts, n - 1), parts[n - 1])
    } else {
        resolved(root, parts, n - 1)
    }
}

/// The location of a file that is stored by its path below a root.
pub open spec fn resolved_path(root: Seq<char>, relative: Seq<char>) -> Seq<char> {
    resolved(root, components_of(relative), components_of(relative).len() as int)
}

/// The location of a file that is stored by its path below a root.
pub fn resolve_relative_path(root_path: &str, relative_path: &str) -> (r: String)
    ensures
        r@ == resolved_path(root_path@, relative_path@),
{
    let parts: Vec<String> = components(relative_path);
    let mut path: String = root_path.to_owned();
    let mut i: usize = 0;
    while i < parts.len()
        invariant
            i <= parts.len(),
            texts(parts@) == components_of(relative_path@),
            path@ == resolved(root_path@, texts(parts@), i as int),
        decreases parts.len() - i,
    {
        let value: &str = parts[i].as_str();
        assert(texts(parts@)[i as int] == value@);
        if !(value.is_empty() || same_text(value, ".") || same_text(value, "..")) {
            path = join_path(path.as_str(), value);
        }
        i = i + 1;
    }
    assert(texts(parts@).len() == parts@.len());
    path
}

/// The location of a media file.
pub fn resolve_media_path(media_item: &MediaItem) -> (r: String)
    ensures
        r@ == resolved_path(media_item.root_path@, media_item.relative_path@),
{
    resolve_relative_path(media_item.root_path.as_str(), media_item.relative_path.as_str())
}

/// The WebVTT form of one SubRip line: time lines get decimal points.
pub open spec fn vtt_line(line: Seq<char>) -> Seq<char> {
    if has_text(line, "-->"@) {
        replaced(line, ',', "."@)
    } else {
        line
    }
}

/// The WebVTT form of the first `n` SubRip lines, each ended by a line feed.
pub open spec fn vtt_lines(list: Seq<Seq<char>>, n: int) -> Seq<char>
    decreases n,
{
    if n <= 0 {
        seq![]
    } else {
        vtt_lines(list, n - 1) + vtt_line(list[n - 1]) + "\n"@
    }
}

/// The WebVTT form of a SubRip text.
pub open spec fn vtt_of_srt(input: Seq<char>) -> Seq<char> {
    "WEBVTT\n\n"@ + vtt_lines(lines(input), lines(input).len() as int)
}

/// The WebVTT form of a SubRip text.
pub fn convert_srt_to_vtt(input: &str) -> (r: String)
    ensures
        r@ == vtt_of_srt(input@),
{
    let list: Vec<&str> = lines_of(input);
    let ghost all = list@.map_values(|line: &str| line@);
    let mut converted: String = "WEBVTT\n\n".to_owned();
    let mut i: usize = 0;
    assert(converted@ =~= "WEBVTT\n\n"@ + vtt_lines(all, 0));
    while i < list.len()
        invariant
            i <= list.len(),
            all == list@.map_values(|line: &str| line@),
            converted@ == "WEBVTT\n\n"@ + vtt_lines(all, i as int),
        decreases list.len() - i,
    {
        let line: &str = list[i];
        assert(all[i as int] == line@);
        if contains_text(line, "-->") {
            let timing: String = replace_char(line, ',', ".");
            converted.append(timing.as_str());
        } else {
            converted.append(line);
        }
        converted.append("\n");
        assert(converted@ =~= "WEBVTT\n\n"@ + vtt_lines(all, i + 1));
        i = i + 1;
    }
    converted
}

/// What `String::from_utf8_lossy` makes of bytes.
pub uninterp spec fn lossy_text(bytes: Seq<u8>) -> Seq<char>;

/// `String::from_utf8_lossy`: the bytes as UTF-8 text, with a replacement
/// character for what is not UTF-8. The result is a function of the bytes, here
/// called `lossy_text`; bytes that are UTF-8 give the text that they encode.
#[verifier::external_body]
pub(crate) fn text_from_bytes(bytes: &[u8]) -> (r: String)
    ensures
        r@ == lossy_text(bytes@),
        valid_utf8(bytes@) ==> r@ == decode_utf8(bytes@),
{
    String::from_utf8_lossy(bytes).into_owned()
}

/// The bytes of a subtitle file without a leading byte-order mark.
pub open spec fn without_byte_order_mark(bytes: Seq<u8>) -> Seq<u8> {
    if bytes.len() >= 3 && bytes[0] == 0xEF && bytes[1] == 0xBB && bytes[2] == 0xBF {
        bytes.skip(3)
    } else {
        bytes
    }
}

/// The WebVTT form of a subtitle text: SubRip is converted, anything else is
/// taken as it is.
pub open spec fn webvtt(text: Seq<char>, extension: Seq<char>) -> Seq<char> {
    if lower(extension) == "srt"@ {
        vtt_of_srt(text)
    } else {
        text
    }
}

/// The WebVTT form of a subtitle text in the format that the extension names.
pub fn webvtt_text(text: String, extension: &str) -> (r: String)
    ensures
        r@ == webvtt(text@, extension@),
{
    let lowered: String = to_lower(extension);
    if same_text(lowered.as_str(), "srt") {
        convert_srt_to_vtt(text.as_str())
    } else {
        text
    }
}

/// The WebVTT form of a subtitle file.
pub fn prepare_webvtt(bytes: &[u8], extension: &str) -> (r: String)
    ensures
        r@ == webvtt(lossy_text(without_byte_order_mark(bytes@)), extension@),
{
    let start: usize = if bytes.len() >= 3 && bytes[0] == 0xEF && bytes[1] == 0xBB && bytes[2]
        == 0xBF {
        3
    } else {
        0
    };
    let body: &[u8] = vstd::slice::slice_subrange(bytes, start, bytes.len());
    assert(body@ =~= without_byte_order_mark(bytes@));
    webvtt_text(text_from_bytes(body), extension)
}

/// The error for a file that could not be read: a missing file is not found,
/// anything else is handed on with its text.
pub fn map_file_error(is_missing: bool, message: String) -> (r: StreamMediaError)
    ensures
        is_missing ==> r is NotFound,
        !is_missing ==> (r matches StreamMediaError::Io(text) && text == message),
{
    if is_missing {
        StreamMediaError::NotFound
    } else {
        StreamMediaError::Io(message)
    }
}

/// A file that is stored by its path below a root lies below that root, at its
/// directories and its name in order.
pub proof fn law_files_resolve_below_their_root(
    root: Seq<char>,
    directory: Seq<char>,
    name: Seq<char>,
)
    requires
        is_plain_name(name),
    ensures
        resolved_path(root, name) == joined_path(root, name),
        directory.len() > 0 ==> resolved_path(root, directory + seq!['/'] + name) == joined_path(
            resolved_path(root, directory),
            name,
        ),
        directory.len() > 0 ==> resolved_path(root, directory + "/.."@) == resolved_path(
            root,
            directory,
        ),
{
    law_components_grow_by_a_name(directory, name);
    reveal_with_fuel(resolved, 2);
    assert(resolved(root, seq![name], 0) == root);
    if directory.len() > 0 {
        let parts = components_of(directory);
        lemma_resolved_prefix(root, parts.push(name), parts, parts.len() as int);
        let up = ".."@;
        reveal_strlit("/..");
        reveal_strlit("..");
        reveal_strlit(".");
        assert(up.len() != "."@.len());
        lemma_components_grow_by_a_step(directory, up);
        assert(directory + "/.."@ =~= directory + seq!['/'] + up);
        lemma_resolved_prefix(root, parts.push(up), parts, parts.len() as int);
    }
}

proof fn lemma_resolved_prefix(root: Seq<char>, a: Seq<Seq<char>>, b: Seq<Seq<char>>, n: int)
    requires
        0 <= n <= a.len(),
        n <= b.len(),
        forall|i: int| 0 <= i < n ==> a[i] == b[i],
    ensures
        resolved(root, a, n) == resolved(root, b, n),
    decreases n,
{
    if n > 0 {
        lemma_resolved_prefix(root, a, b, n - 1);
    }
}

/// The range `first-last` on a file grants the bytes from the first to the last, or
/// to the end of the file where it is shorter; `first-` grants all from the first
/// on, and `-count` that many at the end, or all there are. A range that starts
/// behind the end, or behind its own end, cannot be granted.
pub proof fn law_ranges_grant_what_they_name(first: u64, last: u64, file_len: u64)
    requires
        file_len > 0,
    ensures
        range_answer("bytes="@ + decimal(first as nat) + "-"@ + decimal(last as nat), file_len) == (
        if first >= file_len || first > last {
            RangeAnswer::Unsatisfiable(file_len)
        } else if last >= file_len {
            RangeAnswer::Range(first, (file_len - 1) as u64)
        } else {
            RangeAnswer::Range(first, last)
        }),
        range_answer("bytes="@ + decimal(first as nat) + "-"@, file_len) == (if first >= file_len {
            RangeAnswer::Unsatisfiable(file_len)
        } else {
            RangeAnswer::Range(first, (file_len - 1) as u64)
        }),
        range_answer("bytes="@ + "-"@ + decimal(last as nat), file_len) == (if last == 0 {
            RangeAnswer::Unsatisfiable(file_len)
        } else if last >= file_len {
            RangeAnswer::Range(0, (file_len - 1) as u64)
        } else {
            RangeAnswer::Range((file_len - last) as u64, (file_len - 1) as u64)
        }),
{
    let a = decimal(first as nat);
    let b = decimal(last as nat);
    let none = Seq::<char>::empty();
    lemma_decimal(first as nat);
    lemma_decimal(last as nat);
    law_decimal_reads_back(first as nat, u64::MAX as nat);
    law_decimal_reads_back(last as nat, u64::MAX as nat);
    lemma_header_splits(a, b);
    lemma_header_splits(a, none);
    lemma_header_splits(none, b);
    assert("bytes="@ + a + "-"@ + none =~= "bytes="@ + a + "-"@);
    assert("bytes="@ + none + "-"@ + b =~= "bytes="@ + "-"@ + b);
}

proof fn lemma_header_splits(a: Seq<char>, b: Seq<char>)
    requires
        all_digits(a),
        all_digits(b),
    ensures
        ({
            let header = "bytes="@ + a + "-"@ + b;
            let range = header.skip("bytes="@.len() as int);
            &&& trimmed(header) == header
            &&& "bytes="@.is_prefix_of(header)
            &&& !range.contains(',')
            &&& split_first(range, '-') == Some((a, b))
        }),
{
    reveal_strlit("bytes=");
    reveal_strlit("-");
    let header = "bytes="@ + a + "-"@ + b;
    let range = header.skip("bytes="@.len() as int);
    assert(header[0] == 'b');
    assert(b.len() > 0 ==> header.last() == b.last());
    assert(b.len() > 0 ==> is_digit(b[b.len() - 1]));
    assert(b.len() == 0 ==> header.last() == '-');
    assert(!white_space(header[0]) && !white_space(header.last()));
    assert(range =~= a + seq!['-'] + b);
    assert forall|k: int| 0 <= k < range.len() implies range[k] != ',' by {
        if k < a.len() {
            assert(is_digit(a[k]));
        } else if k > a.len() {
            assert(is_digit(b[k - a.len() - 1]));
        }
    }
    lemma_find(range, '-');
    assert(range[a.len() as int] == '-');
    assert forall|k: int| 0 <= k < a.len() implies range[k] != '-' by {
        assert(is_digit(a[k]));
    }
    assert(find(range, '-') == a.len());
    assert(range.take(a.len() as int) =~= a);
    assert(range.skip(a.len() as int + 1) =~= b);
}

/// A header that does not name bytes, or that names several ranges, is malformed.
pub proof fn law_other_headers_are_malformed(header: Seq<char>, file_len: u64)
    ensures
        !"bytes="@.is_prefix_of(trimmed(header)) ==> range_answer(header, file_len) is Malformed,
        trimmed(header).contains(',') ==> range_answer(header, file_len) is Malformed,
{
    reveal_strlit("bytes=");
    let value = trimmed(header);
    if "bytes="@.is_prefix_of(value) && value.contains(',') {
        let k = value.index_of(',');
        assert(value.take(6) =~= "bytes="@);
        if k < 6 {
            assert(value.take(6)[k] == ',');
        }
        assert(value.skip(6)[k - 6] == ',');
    }
}

/// A partial answer sends the bytes from the first to the last granted one, each
/// once, and says so: its length and the three numbers of its content range.
pub proof fn law_partial_answers_say_what_they_send(
    plan: FileResponsePlan,
    start: u64,
    end: u64,
    file_len: u64,
)
    requires
        start <= end < file_len,
        sends_range(plan, start, end, file_len),
    ensures
        plan.status == 206,
        plan.start == start,
        plan.start + plan.content_len == end + 1,
        parsed_number(plan.content_length@, u64::MAX as nat) == Some(plan.content_len as nat),
        exists|a: Seq<char>, b: Seq<char>, c: Seq<char>|
            opt_text(plan.content_range) == Some(
                #[trigger] ("bytes "@ + a + "-"@ + b + "/"@ + c),
            ) && all_digits(a) && all_digits(b) && all_digits(c) && numeral_value(a) == start
                && numeral_value(b) == end && numeral_value(c) == file_len,
{
    law_decimal_reads_back((end - start + 1) as nat, u64::MAX as nat);
    lemma_decimal(start as nat);
    lemma_decimal(end as nat);
    lemma_decimal(file_len as nat);
    let a = decimal(start as nat);
    let b = decimal(end as nat);
    let c = decimal(file_len as nat);
    assert(opt_text(plan.content_range) == Some("bytes "@ + a + "-"@ + b + "/"@ + c));
}

/// An answer without a range sends the whole file and says its length.
pub proof fn law_whole_answers_send_everything(plan: FileResponsePlan, file_len: u64)
    requires
        sends_all(plan, file_len),
    ensures
        plan.status == 200 && plan.start == 0 && plan.content_len == file_len
            && plan.content_range is None,
        parsed_number(plan.content_length@, u64::MAX as nat) == Some(file_len as nat),
{
    law_decimal_reads_back(file_len as nat, u64::MAX as nat);
}

/// Whether a line of WebVTT is that of a line of SubRip: as long, and the same but
/// for the commas of a time line, which are points.
pub open spec fn is_converted_line(line: Seq<char>, source: Seq<char>) -> bool {
    &&& line.len() == source.len()
    &&& forall|i: int|
        0 <= i < line.len() ==> #[trigger] line[i] == (if source[i] == ',' && has_text(
            source,
            "-->"@,
        ) {
            '.'
        } else {
            source[i]
        })
}

proof fn lemma_vtt_line(source: Seq<char>)
    ensures
        is_converted_line(vtt_line(source), source),
        !source.contains('\n') ==> !vtt_line(source).contains('\n'),
{
    reveal_strlit(".");
    assert("."@ =~= seq!['.']);
    law_replacing_keeps_the_rest(source, ',', '.');
    if vtt_line(source).contains('\n') {
        let k = vtt_line(source).index_of('\n');
        assert(vtt_line(source)[k] == '\n');
        assert(source[k] == '\n');
    }
}

proof fn lemma_vtt_pieces(list: Seq<Seq<char>>, n: int)
    requires
        0 <= n <= list.len(),
        forall|k: int| 0 <= k < list.len() ==> !(#[trigger] list[k]).contains('\n'),
    ensures
        pieces(vtt_lines(list, n), '\n').len() == n + 1,
        pieces(vtt_lines(list, n), '\n')[n] == Seq::<char>::empty(),
        forall|k: int|
            0 <= k < n ==> #[trigger] pieces(vtt_lines(list, n), '\n')[k] == vtt_line(list[k]),
    decreases n,
{
    let none = Seq::<char>::empty();
    if n == 0 {
        assert(pieces(none, '\n') =~= seq![none]);
    } else {
        let before = vtt_lines(list, n - 1);
        let line = vtt_line(list[n - 1]);
        lemma_vtt_pieces(list, n - 1);
        lemma_vtt_line(list[n - 1]);
        lemma_pieces_append(before, line, '\n');
        lemma_pieces_push(before + line, '\n');
        reveal_strlit("\n");
        assert(vtt_lines(list, n) =~= (before + line).push('\n'));
        assert(none + line =~= line);
    }
}

/// The conversion keeps the lines. After the header and a blank line the result has
/// a line for each line of the input, at the same place and each ended by a line
/// feed: the same line, with points for the commas of a time line. In particular a
/// blank line of the input is a blank line of the result.
pub proof fn law_conversion_keeps_the_lines(input: Seq<char>, k: int)
    requires
        0 <= k < lines(input).len(),
    ensures
        ({
            let result = vtt_of_srt(input);
            let list = pieces(result, '\n');
            &&& list.len() == lines(input).len() + 3
            &&& list[0] == "WEBVTT"@
            &&& list[1].len() == 0
            &&& is_converted_line(list[k + 2], lines(input)[k])
            &&& lines(input)[k].len() == 0 ==> list[k + 2].len() == 0
            &&& list.last().len() == 0
        }),
{
    let all = lines(input);
    let n = all.len() as int;
    let body = vtt_lines(all, n);
    law_lines_make_up_the_text(input);
    lemma_vtt_pieces(all, n);
    lemma_vtt_line(all[k]);
    lemma_header_pieces(body);
    assert(pieces(vtt_of_srt(input), '\n')[k + 2] == pieces(body, '\n')[k]);
}

proof fn lemma_header_pieces(body: Seq<char>)
    ensures
        pieces("WEBVTT\n\n"@ + body, '\n') == seq!["WEBVTT"@, Seq::<char>::empty()] + pieces(
            body,
            '\n',
        ),
{
    reveal_strlit("WEBVTT\n\n");
    reveal_strlit("WEBVTT");
    let whole = "WEBVTT\n\n"@ + body;
    lemma_find(whole, '\n');
    assert(whole[6] == '\n');
    assert(find(whole, '\n') == 6);
    assert(whole.take(6) =~= "WEBVTT"@);
    let rest = whole.skip(7);
    lemma_find(rest, '\n');
    assert(rest[0] == '\n');
    assert(find(rest, '\n') == 0);
    assert(rest.take(0) =~= Seq::<char>::empty());
    assert(rest.skip(1) =~= body);
    assert(whole.skip(find(whole, '\n') + 1) =~= rest);
    assert(pieces(rest, '\n') =~= seq![Seq::<char>::empty()] + pieces(body, '\n'));
    assert(pieces(whole, '\n') =~= seq!["WEBVTT"@, Seq::<char>::empty()] + pieces(body, '\n'));
}

proof fn lemma_vtt_of_ended_lines(list: Seq<Seq<char>>, n: int)
    requires
        0 <= n <= list.len(),
    ensures
        vtt_lines(list, n).len() == ended_lines(list.take(n)).len(),
        forall|i: int|
            0 <= i < vtt_lines(list, n).len() ==> {
                let c = #[trigger] vtt_lines(list, n)[i];
                c == ended_lines(list.take(n))[i] || (c == '.' && ended_lines(list.take(n))[i]
                    == ',')
            },
    decreases n,
{
    if n > 0 {
        lemma_vtt_of_ended_lines(list, n - 1);
        lemma_vtt_line(list[n - 1]);
        lemma_ended_push(list.take(n - 1), list[n - 1]);
        assert(list.take(n) =~= list.take(n - 1).push(list[n - 1]));
        reveal_strlit("\n");
        let before = vtt_lines(list, n - 1);
        let source = ended_lines(list.take(n - 1));
        let line = vtt_line(list[n - 1]);
        assert(vtt_lines(list, n) =~= before + line + seq!['\n']);
        assert forall|i: int| 0 <= i < vtt_lines(list, n).len() implies {
            let c = #[trigger] vtt_lines(list, n)[i];
            c == ended_lines(list.take(n))[i] || (c == '.' && ended_lines(list.take(n))[i] == ',')
        } by {
            if i < before.len() {
                assert(vtt_lines(list, n)[i] == before[i]);
                assert(ended_lines(list.take(n))[i] == source[i]);
            } else if i < before.len() + line.len() {
                assert(vtt_lines(list, n)[i] == line[i - before.len()]);
                assert(ended_lines(list.take(n))[i] == list[n - 1][i - before.len()]);
            }
        }
    }
}

proof fn lemma_ended_push(list: Seq<Seq<char>>, line: Seq<char>)
    ensures
        ended_lines(list.push(line)) == ended_lines(list) + line + seq!['\n'],
    decreases list.len(),
{
    if list.len() == 0 {
        assert(list.push(line).skip(1) =~= Seq::<Seq<char>>::empty());
        assert(ended_lines(list.push(line).skip(1)) =~= Seq::<char>::empty());
        assert(ended_lines(list.push(line)) =~= ended_lines(list) + line + seq!['\n']);
    } else {
        lemma_ended_push(list.skip(1), line);
        assert(list.push(line).skip(1) =~= list.skip(1).push(line));
        assert(ended_lines(list.push(line)) =~= ended_lines(list) + line + seq!['\n']);
    }
}

/// A text of lines that each end in a line feed alone is converted character by
/// character: behind the header stands the text itself, but for commas that became
/// points.
pub proof fn law_conversion_keeps_every_character(input: Seq<char>)
    requires
        !input.contains('\r'),
        input.len() == 0 || input.last() == '\n',
    ensures
        vtt_of_srt(input).len() == 8 + input.len(),
        vtt_of_srt(input).take(8) == "WEBVTT\n\n"@,
        forall|i: int|
            0 <= i < input.len() ==> {
                let c = #[trigger] vtt_of_srt(input)[8 + i];
                c == input[i] || (c == '.' && input[i] == ',')
            },
{
    let all = lines(input);
    law_lines_make_up_the_text(input);
    lemma_vtt_of_ended_lines(all, all.len() as int);
    assert(all.take(all.len() as int) =~= all);
    reveal_strlit("WEBVTT\n\n");
    assert(vtt_of_srt(input).take(8) =~= "WEBVTT\n\n"@);
    let body = vtt_lines(all, all.len() as int);
    assert forall|i: int| 0 <= i < input.len() implies {
        let c = #[trigger] vtt_of_srt(input)[8 + i];
        c == input[i] || (c == '.' && input[i] == ',')
    } by {
        assert(vtt_of_srt(input)[8 + i] == body[i]);
    }
}

/// A subtitle file is converted exactly where its extension is that of SubRip, in any
/// case of letters; a byte-order mark is not part of its text.
pub proof fn law_only_subrip_is_converted(text: Seq<char>, extension: Seq<char>, bytes: Seq<u8>)
    ensures
        lower(extension) == "srt"@ ==> "WEBVTT\n\n"@.is_prefix_of(webvtt(text, extension)),
        lower(extension) != "srt"@ ==> webvtt(text, extension) == text,
        without_byte_order_mark(seq![0xEFu8, 0xBBu8, 0xBFu8] + bytes) == bytes,
        !seq![0xEFu8, 0xBBu8, 0xBFu8].is_prefix_of(bytes) ==> without_byte_order_mark(bytes)
            == bytes,
{
    assert("WEBVTT\n\n"@.is_prefix_of(vtt_of_srt(text)));
    let mark = seq![0xEFu8, 0xBBu8, 0xBFu8];
    assert((mark + bytes).skip(3) =~= bytes);
    if bytes.len() >= 3 && bytes[0] == 0xEF && bytes[1] == 0xBB && bytes[2] == 0xBF {
        assert(bytes.take(3) =~= mark);
        assert(mark.is_prefix_of(bytes));
    }
}

/// A range header is read as the bytes that it names: of `first-last` those from the first
/// to the last, or to the end of the file; what cannot be granted is refused with the
/// length of the file.
pub proof fn law_ranges_are_read_as_they_name(
    header: &str,
    first: u64,
    last: u64,
    file_len: u64,
    r: Result<ByteRange, StreamMediaError>,
)
    requires
        file_len > 0,
        header@ == "bytes="@ + decimal(first as nat) + "-"@ + decimal(last as nat),
        call_ensures(parse_range_header, (header, file_len), r),
    ensures
        r is Ok <==> first <= last && first < file_len,
        r matches Ok(range) ==> range.start == first && range.end == (if last < file_len {
            last as int
        } else {
            file_len - 1
        }),
        r matches Err(error) ==> error == (StreamMediaError::UnsatisfiableRange { file_len }),
{
    law_ranges_grant_what_they_name(first, last, file_len);
}

/// Without a range the whole file is sent, and with one the bytes that it names; what is
/// no file is not found.
pub proof fn law_answers_send_what_was_asked_for(
    is_file: bool,
    file_len: u64,
    header: &str,
    first: u64,
    last: u64,
    whole: Result<FileResponsePlan, StreamMediaError>,
    part: Result<FileResponsePlan, StreamMediaError>,
)
    requires
        call_ensures(plan_file_response, (is_file, file_len, None::<&str>), whole),
        call_ensures(plan_file_response, (is_file, file_len, Some(header)), part),
        header@ == "bytes="@ + decimal(first as nat) + "-"@ + decimal(last as nat),
        first <= last < file_len,
    ensures
        !is_file ==> whole is Err && whole->Err_0 is NotFound && part is Err
            && part->Err_0 is NotFound,
        is_file ==> whole is Ok && part is Ok,
        is_file ==> whole->Ok_0.status == 200 && whole->Ok_0.start == 0 && whole->Ok_0.content_len
            == file_len,
        is_file ==> part->Ok_0.status == 206 && part->Ok_0.start == first && part->Ok_0.content_len
            == last - first + 1,
{
    law_ranges_grant_what_they_name(first, last, file_len);
}

/// A SubRip text is converted line by line: the lines of the result, behind the header and
/// a blank line, are those of the text, with points for the commas of time lines, and a
/// blank line stays one at its place.
pub proof fn law_subrip_is_converted_line_by_line(input: &str, r: String, k: int)
    requires
        call_ensures(convert_srt_to_vtt, (input,), r),
        0 <= k < lines(input@).len(),
    ensures
        pieces(r@, '\n').len() == lines(input@).len() + 3,
        pieces(r@, '\n')[0] == "WEBVTT"@ && pieces(r@, '\n')[1].len() == 0,
        is_converted_line(pieces(r@, '\n')[k + 2], lines(input@)[k]),
        lines(input@)[k].len() == 0 ==> pieces(r@, '\n')[k + 2].len() == 0,
{
    law_conversion_keeps_the_lines(input@, k);
}

} // verus!
