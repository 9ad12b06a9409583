//! Attachments as files: their names and the part of their text that is kept.
use crate::ids;
use crate::text;
use vstd::prelude::*;
use vstd::utf8::*;

verus! {

broadcast use vstd::string::group_string_axioms;

/// At most so many bytes of a file are kept.
pub const MAX_ATTACHMENT_BYTES: usize = 262144;

/// At most so many characters of a file's name are kept.
pub const MAX_NAME_CHARS: usize = 64;

/// The text of a file.
#[derive(Debug)]
pub struct ReadResult {
    pub content: String,
    pub truncated: bool,
    /// The size of the whole file.
    pub size_bytes: usize,
}

#[derive(Debug)]
pub enum StorageError {
    /// The file could not be read; with the path and the cause.
    NotReadable(String),
    NotText,
    MeetingFolderMissing,
    /// Another failure of the file system; with the cause.
    Io(String),
}

/// What an error says.
pub open spec fn storage_message(e: StorageError) -> Seq<char> {
    match e {
        StorageError::NotReadable(cause) => "file not found or unreadable: "@ + cause@,
        StorageError::NotText => "file is not valid UTF-8 text"@,
        StorageError::MeetingFolderMissing => "meeting folder is not initialized"@,
        StorageError::Io(cause) => "io: "@ + cause@,
    }
}

impl StorageError {
    /// What the error says.
    pub fn message(&self) -> (r: String)
        ensures
            r@ == storage_message(*self),
    {
        match self {
            StorageError::NotReadable(cause) => text::concat2(
                "file not found or unreadable: ",
                cause.as_str(),
            ),
            StorageError::NotText => "file is not valid UTF-8 text".to_owned(),
            StorageError::MeetingFolderMissing => "meeting folder is not initialized".to_owned(),
            StorageError::Io(cause) => text::concat2("io: ", cause.as_str()),
        }
    }
}

/// A character that separates the parts of a path.
pub open spec fn is_separator(c: char) -> bool {
    c == '/' || c == '\\'
}

/// How many dots the text starts with.
pub open spec fn leading_dots(s: Seq<char>) -> nat
    decreases s.len(),
{
    if s.len() > 0 && s[0] == '.' {
        1 + leading_dots(s.skip(1))
    } else {
        0
    }
}

/// The name without the dots it starts with. Where they make up a whole part of a
/// path, such as `..`, the separator after them goes with them, and so on.
pub open spec fn undotted(s: Seq<char>) -> Seq<char>
    decreases s.len(),
{
    let n = leading_dots(s);
    if 0 < n < s.len() && is_separator(s[n as int]) {
        undotted(s.skip(n as int + 1))
    } else {
        s.skip(n as int)
    }
}

/// What stands for a character in a file's name.
pub open spec fn safe_char(c: char) -> char {
    if is_separator(c) || text::is_control(c) {
        '_'
    } else {
        c
    }
}

/// A file's name that stays in its folder: no leading dots, an underscore for each
/// separator or control character, at most 64 characters, and never empty.
pub open spec fn sanitized(name: Seq<char>) -> Seq<char> {
    let safe = undotted(name).map_values(|c: char| safe_char(c));
    let kept = if safe.len() > MAX_NAME_CHARS {
        safe.take(MAX_NAME_CHARS as int)
    } else {
        safe
    };
    if kept.len() == 0 {
        "attachment"@
    } else {
        kept
    }
}

proof fn lemma_leading_dots(s: Seq<char>, n: nat)
    requires
        n <= s.len(),
        forall|i: int| 0 <= i < n ==> #[trigger] s[i] == '.',
        n < s.len() ==> s[n as int] != '.',
    ensures
        leading_dots(s) == n,
    decreases n,
{
    if n > 0 {
        assert(s[0] == '.');
        let t = s.skip(1);
        assert forall|i: int| 0 <= i < n - 1 implies #[trigger] t[i] == '.' by {
            assert(t[i] == s[i + 1]);
        }
        lemma_leading_dots(t, (n - 1) as nat);
    }
}

/// Replaces what must not stand in a file's name, and cuts long names.
pub fn sanitize_basename(name: &str) -> (r: String)
    ensures
        r@ == sanitized(name@),
{
    let chars = text::chars_of(name);
    let mut start: usize = 0;
    let mut open = true;
    proof {
        assert(name@.skip(0) =~= name@);
    }
    while open
        invariant
            chars@ == name@,
            start <= chars@.len(),
            open ==> undotted(name@) == undotted(name@.skip(start as int)),
            !open ==> undotted(name@) == name@.skip(start as int),
        decreases chars@.len() - start + if open { 1int } else { 0int },
    {
        let ghost rest = name@.skip(start as int);
        let mut at: usize = start;
        while at < chars.len() && chars[at] == '.'
            invariant
                chars@ == name@,
                start <= at <= chars@.len(),
                forall|i: int| start <= i < at ==> #[trigger] chars@[i] == '.',
            decreases chars@.len() - at,
        {
            at = at + 1;
        }
        proof {
            let n = (at - start) as nat;
            assert forall|i: int| 0 <= i < n implies #[trigger] rest[i] == '.' by {
                assert(rest[i] == chars@[i + start]);
            }
            if at < chars@.len() {
                assert(rest[n as int] == chars@[at as int]);
            }
            lemma_leading_dots(rest, n);
            assert(rest.skip(n as int) =~= name@.skip(at as int));
            if at < chars@.len() {
                assert(rest.skip(n as int + 1) =~= name@.skip(at + 1));
            }
        }
        if start < at && at < chars.len() && (chars[at] == '/' || chars[at] == '\\') {
            start = at + 1;
        } else {
            start = at;
            open = false;
        }
    }
    let ghost safe = undotted(name@).map_values(|c: char| safe_char(c));
    let mut out = String::new();
    let mut at: usize = start;
    while at < chars.len() && at - start < MAX_NAME_CHARS
        invariant
            chars@ == name@,
            start <= at <= chars@.len(),
            at - start <= MAX_NAME_CHARS,
            safe == name@.skip(start as int).map_values(|c: char| safe_char(c)),
            out@ == safe.take(at - start),
        decreases chars@.len() - at,
    {
        let c = chars[at];
        let ghost before = out@;
        if c == '/' || c == '\\' || text::control(c) {
            out.push('_');
        } else {
            out.push(c);
        }
        proof {
            assert(safe[at - start] == safe_char(chars@[at as int]));
            assert(safe.take(at - start + 1) =~= before.push(safe[at - start]));
        }
        at = at + 1;
    }
    proof {
        if safe.len() <= MAX_NAME_CHARS {
            assert(safe.take(safe.len() as int) =~= safe);
        }
    }
    if out.as_str().is_empty() {
        return "attachment".to_owned();
    }
    out
}

/// The part of a text before its first hyphen; all of it where there is none.
pub open spec fn before_hyphen(s: Seq<char>) -> Seq<char>
    decreases s.len(),
{
    if s.len() == 0 || s[0] == '-' {
        Seq::empty()
    } else {
        seq![s[0]] + before_hyphen(s.skip(1))
    }
}

proof fn lemma_before_hyphen(s: Seq<char>, n: int)
    requires
        0 <= n <= s.len(),
        forall|i: int| 0 <= i < n ==> #[trigger] s[i] != '-',
        n < s.len() ==> s[n] == '-',
    ensures
        before_hyphen(s) == s.take(n),
    decreases n,
{
    if n > 0 {
        assert(s[0] != '-');
        let t = s.skip(1);
        assert forall|i: int| 0 <= i < n - 1 implies #[trigger] t[i] != '-' by {
            assert(t[i] == s[i + 1]);
        }
        lemma_before_hyphen(t, n - 1);
        assert(s.take(n) =~= seq![s[0]] + t.take(n - 1));
    } else {
        assert(s.take(0) =~= Seq::<char>::empty());
    }
}

/// The name under which an attachment is stored.
pub open spec fn stored_name(uuid: Seq<char>, original_name: Seq<char>) -> Seq<char> {
    before_hyphen(uuid) + "_"@ + sanitized(original_name)
}

/// The name under which an attachment is stored: the first group of a UUID, an
/// underscore, and the sanitized name.
pub fn stored_filename(uuid: &str, original_name: &str) -> (r: String)
    ensures
        r@ == stored_name(uuid@, original_name@),
        r@ == before_hyphen(uuid@) + "_"@ + sanitized(original_name@),
{
    let chars = text::chars_of(uuid);
    let mut n: usize = 0;
    while n < chars.len() && chars[n] != '-'
        invariant
            chars@ == uuid@,
            n <= chars@.len(),
            forall|i: int| 0 <= i < n ==> #[trigger] chars@[i] != '-',
        decreases chars@.len() - n,
    {
        n = n + 1;
    }
    proof {
        lemma_before_hyphen(uuid@, n as int);
        assert(uuid@.take(n as int) =~= uuid@.subrange(0, n as int));
    }
    text::concat3(
        uuid.substring_char(0, n),
        "_",
        sanitize_basename(original_name).as_str(),
    )
}

/// A name for a new attachment: eight random hexadecimal digits, an underscore, and the
/// sanitized name.
pub fn build_stored_filename(original_name: &str) -> (r: String)
    ensures
        r@.len() == 9 + sanitized(original_name@).len(),
        forall|i: int| 0 <= i < 8 ==> ids::is_lower_hex(#[trigger] r@[i]),
        r@[8] == '_',
        r@.skip(9) == sanitized(original_name@),
{
    let uuid = ids::new_uuid();
    let r = stored_filename(uuid.as_str(), original_name);
    proof {
        reveal_strlit("_");
        assert forall|i: int| 0 <= i < 8 implies #[trigger] uuid@[i] != '-' by {
            assert(ids::is_lower_hex(uuid@[i]));
        }
        assert(uuid@[8] == '-');
        lemma_before_hyphen(uuid@, 8);
        assert forall|i: int| 0 <= i < 8 implies ids::is_lower_hex(#[trigger] r@[i]) by {
            assert(r@[i] == uuid@[i]);
        }
        assert(r@.skip(9) =~= sanitized(original_name@));
    }
    r
}

/// `std::str::from_utf8` of the standard library: the text of the bytes if they are
/// valid UTF-8, and nothing otherwise.
#[verifier::external_body]
fn utf8_text(bytes: &[u8]) -> (r: Option<&str>)
    ensures
        match r {
            Some(s) => valid_utf8(bytes@) && s@ == decode_utf8(bytes@),
            None => !valid_utf8(bytes@),
        },
{
    std::str::from_utf8(bytes).ok()
}

/// The last character boundary at or before an index.
pub open spec fn boundary_before(bytes: Seq<u8>, index: int) -> int
    decreases index,
{
    if index <= 0 {
        0
    } else if is_char_boundary(bytes, index) {
        index
    } else {
        boundary_before(bytes, index - 1)
    }
}

/// The end of the last complete line in the first `len` bytes; all of them where no line
/// ends there.
pub open spec fn last_line_end(bytes: Seq<u8>, len: int) -> int {
    if exists|i: int| 0 <= i < len && #[trigger] bytes[i] == 10 {
        let i = choose|i: int|
            0 <= i < len && #[trigger] bytes[i] == 10 && forall|j: int|
                i < j < len ==> #[trigger] bytes[j] != 10;
        i + 1
    } else {
        len
    }
}

/// How many bytes of a text file are kept: all of a small one; else what ends with a
/// whole character, and with a whole line if there is one, within the limit.
pub open spec fn kept_len(bytes: Seq<u8>) -> int {
    if bytes.len() <= MAX_ATTACHMENT_BYTES {
        bytes.len() as int
    } else {
        last_line_end(bytes, boundary_before(bytes, MAX_ATTACHMENT_BYTES as int))
    }
}

/// A file that is taken for text: valid UTF-8 without NUL bytes.
pub open spec fn is_text(bytes: Seq<u8>) -> bool {
    valid_utf8(bytes) && !bytes.contains(0)
}

proof fn lemma_boundary_before(bytes: Seq<u8>, index: int)
    requires
        valid_utf8(bytes),
        0 <= index,
    ensures
        0 <= boundary_before(bytes, index) <= index,
        is_char_boundary(bytes, boundary_before(bytes, index)),
    decreases index,
{
    is_char_boundary_start_end_of_seq(bytes);
    if index > 0 && !is_char_boundary(bytes, index) {
        lemma_boundary_before(bytes, index - 1);
    }
}

/// After a line feed a new character starts, or the text ends.
proof fn lemma_boundary_after_newline(bytes: Seq<u8>, i: int)
    requires
        valid_utf8(bytes),
        0 <= i < bytes.len(),
        bytes[i] == 10,
    ensures
        is_char_boundary(bytes, i + 1),
{
    is_char_boundary_start_end_of_seq(bytes);
    assert(!is_continuation_byte(10)) by (bit_vector);
    is_char_boundary_iff_not_is_continuation_byte(bytes, i);
    if i + 1 < bytes.len() {
        valid_utf8_split(bytes, i);
        let rest = bytes.subrange(i, bytes.len() as int);
        assert(rest[0] == 10);
        assert(is_leading_byte_width_1(10)) by (bit_vector);
        assert(length_of_first_scalar(rest) == 1);
        let tail = pop_first_scalar(rest);
        assert(tail =~= bytes.subrange(i + 1, bytes.len() as int));
        assert(valid_utf8(tail));
        is_char_boundary_start_end_of_seq(tail);
        is_char_boundary_iff_not_is_continuation_byte(tail, 0);
        assert(tail[0] == bytes[i + 1]);
        is_char_boundary_iff_not_is_continuation_byte(bytes, i + 1);
    }
}

/// What is taken of a file.
pub struct ReadView {
    pub content: Seq<char>,
    pub truncated: bool,
    pub size: nat,
}

/// What is taken of a file with these bytes; nothing where it is not text.
pub open spec fn read_view(bytes: Seq<u8>) -> Option<ReadView> {
    if is_text(bytes) {
        Some(
            ReadView {
                content: decode_utf8(bytes.take(kept_len(bytes))),
                truncated: bytes.len() > MAX_ATTACHMENT_BYTES,
                size: bytes.len(),
            },
        )
    } else {
        None
    }
}

/// Takes the text of a file. A file that is not text is refused, and of a long one only
/// the start is kept.
pub fn read_text_capped(bytes: &[u8]) -> (r: Result<ReadResult, StorageError>)
    ensures
        match (r, read_view(bytes@)) {
            (Ok(read), Some(v)) => read.content@ == v.content && read.truncated == v.truncated
                && read.size_bytes == v.size,
            (Err(e), None) => e is NotText,
            _ => false,
        },
        is_text(bytes@) <==> r is Ok,
        match r {
            Ok(read) => {
                &&& read.size_bytes == bytes@.len()
                &&& read.truncated == (bytes@.len() > MAX_ATTACHMENT_BYTES)
                &&& read.content@ == decode_utf8(bytes@.take(kept_len(bytes@)))
                &&& encode_utf8(read.content@) == bytes@.take(kept_len(bytes@))
                &&& encode_utf8(read.content@).len() <= MAX_ATTACHMENT_BYTES
            },
            Err(e) => e is NotText,
        },
{
    let mut i: usize = 0;
    while i < bytes.len()
        invariant
            i <= bytes@.len(),
            forall|j: int| 0 <= j < i ==> #[trigger] bytes@[j] != 0,
        decreases bytes@.len() - i,
    {
        if bytes[i] == 0 {
            proof {
                assert(bytes@[i as int] == 0);
            }
            return Err(StorageError::NotText);
        }
        i = i + 1;
    }
    let whole = match utf8_text(bytes) {
        Some(s) => s,
        None => {
            return Err(StorageError::NotText);
        },
    };
    proof {
        decode_utf8_encode_utf8(bytes@);
        assert(encode_utf8(whole@) == bytes@);
    }
    if bytes.len() <= MAX_ATTACHMENT_BYTES {
        proof {
            assert(bytes@.take(bytes@.len() as int) =~= bytes@);
        }
        return Ok(
            ReadResult { content: whole.to_owned(), truncated: false, size_bytes: bytes.len() },
        );
    }
    let mut cut: usize = MAX_ATTACHMENT_BYTES;
    proof {
        is_char_boundary_start_end_of_seq(bytes@);
    }
    while cut > 0 && !whole.is_char_boundary(cut)
        invariant
            valid_utf8(bytes@),
            encode_utf8(whole@) == bytes@,
            cut <= MAX_ATTACHMENT_BYTES < bytes@.len(),
            boundary_before(bytes@, cut as int) == boundary_before(
                bytes@,
                MAX_ATTACHMENT_BYTES as int,
            ),
        decreases cut,
    {
        cut = cut - 1;
    }
    let ghost window = cut as int;
    proof {
        lemma_boundary_before(bytes@, MAX_ATTACHMENT_BYTES as int);
        assert(window == boundary_before(bytes@, MAX_ATTACHMENT_BYTES as int));
    }
    let mut end: usize = cut;
    while end > 0 && bytes[end - 1] != 10
        invariant
            end <= cut < bytes@.len(),
            forall|j: int| end <= j < cut ==> #[trigger] bytes@[j] != 10,
        decreases end,
    {
        end = end - 1;
    }
    if end == 0 {
        end = cut;
        proof {
            assert(!exists|i: int| 0 <= i < window && #[trigger] bytes@[i] == 10);
        }
    } else {
        proof {
            assert(bytes@[end - 1] == 10);
            lemma_boundary_after_newline(bytes@, end - 1);
            let k = choose|i: int|
                0 <= i < window && #[trigger] bytes@[i] == 10 && forall|j: int|
                    i < j < window ==> #[trigger] bytes@[j] != 10;
            assert(k == end - 1);
        }
    }
    let (kept, _rest) = whole.split_at(end);
    proof {
        assert(encode_utf8(kept@) == bytes@.take(end as int));
        encode_utf8_decode_utf8(kept@);
    }
    Ok(ReadResult { content: kept.to_owned(), truncated: true, size_bytes: bytes.len() })
}

proof fn lemma_dots_end(s: Seq<char>)
    ensures
        leading_dots(s) <= s.len(),
        leading_dots(s) < s.len() ==> s[leading_dots(s) as int] != '.',
    decreases s.len(),
{
    if s.len() > 0 && s[0] == '.' {
        lemma_dots_end(s.skip(1));
    }
}

proof fn lemma_undotted(s: Seq<char>)
    ensures
        undotted(s).len() > 0 ==> undotted(s)[0] != '.',
    decreases s.len(),
{
    lemma_dots_end(s);
    let n = leading_dots(s);
    if 0 < n < s.len() && is_separator(s[n as int]) {
        lemma_undotted(s.skip(n as int + 1));
    }
}

/// A name that is safe in a folder: it has 1 to 64 characters, does not start with a
/// dot, and holds no separator and no control character.
pub open spec fn is_safe_name(name: Seq<char>) -> bool {
    &&& 1 <= name.len() <= MAX_NAME_CHARS
    &&& name[0] != '.'
    &&& forall|i: int|
        0 <= i < name.len() ==> !is_separator(#[trigger] name[i]) && !text::is_control(name[i])
}

/// Whatever the name, the sanitized one is safe in a folder.
pub proof fn law_sanitized_names_are_safe(name: Seq<char>)
    ensures
        is_safe_name(sanitized(name)),
{
    reveal_strlit("attachment");
    lemma_undotted(name);
    let bare = undotted(name);
    let safe = bare.map_values(|c: char| safe_char(c));
    let r = sanitized(name);
    if safe.len() > 0 {
        assert(r[0] == safe_char(bare[0]));
        assert forall|i: int| 0 <= i < r.len() implies !is_separator(#[trigger] r[i])
            && !text::is_control(r[i]) by {
            assert(r[i] == safe_char(bare[i]));
        }
    }
}

/// Sanitizing a name twice is the same as sanitizing it once.
pub proof fn law_sanitizing_again_changes_nothing(name: Seq<char>)
    ensures
        sanitized(sanitized(name)) == sanitized(name),
{
    law_sanitized_names_are_safe(name);
    let r = sanitized(name);
    assert(leading_dots(r) == 0);
    assert(r.skip(0) =~= r);
    let safe = undotted(r).map_values(|c: char| safe_char(c));
    assert forall|i: int| 0 <= i < r.len() implies #[trigger] safe[i] == r[i] by {
        assert(!is_separator(r[i]));
    }
    assert(safe =~= r);
}

/// The part of a text file that is kept is its start, within the limit, and ends with
/// a whole character. Where a long file has a line break within the limit, the part
/// ends with one.
pub proof fn law_kept_part_is_a_clean_start(bytes: Seq<u8>)
    requires
        is_text(bytes),
    ensures
        0 <= kept_len(bytes) <= bytes.len(),
        kept_len(bytes) <= MAX_ATTACHMENT_BYTES,
        is_char_boundary(bytes, kept_len(bytes)),
        decode_utf8(bytes.take(kept_len(bytes))).is_prefix_of(decode_utf8(bytes)),
        bytes.len() > MAX_ATTACHMENT_BYTES && (exists|i: int|
            0 <= i < boundary_before(bytes, MAX_ATTACHMENT_BYTES as int) && #[trigger] bytes[i]
                == 10) ==> kept_len(bytes) > 0 && bytes[kept_len(bytes) - 1] == 10,
{
    is_char_boundary_start_end_of_seq(bytes);
    if bytes.len() > MAX_ATTACHMENT_BYTES {
        lemma_boundary_before(bytes, MAX_ATTACHMENT_BYTES as int);
        let window = boundary_before(bytes, MAX_ATTACHMENT_BYTES as int);
        if exists|i: int| 0 <= i < window && #[trigger] bytes[i] == 10 {
            let i = choose|i: int| 0 <= i < window && #[trigger] bytes[i] == 10;
            lemma_last_newline(bytes, window, i);
            let k = choose|i: int|
                0 <= i < window && #[trigger] bytes[i] == 10 && forall|j: int|
                    i < j < window ==> #[trigger] bytes[j] != 10;
            lemma_boundary_after_newline(bytes, k);
        }
    }
    let n = kept_len(bytes);
    decode_utf8_split(bytes, n);
    assert(bytes.take(n) =~= bytes.subrange(0, n));
    let head = decode_utf8(bytes.subrange(0, n));
    assert(head =~= decode_utf8(bytes).subrange(0, head.len() as int));
}

proof fn lemma_last_newline(bytes: Seq<u8>, window: int, i: int)
    requires
        0 <= i < window <= bytes.len(),
        bytes[i] == 10,
    ensures
        exists|k: int|
            0 <= k < window && #[trigger] bytes[k] == 10 && forall|j: int|
                k < j < window ==> #[trigger] bytes[j] != 10,
    decreases window - i,
{
    if exists|j: int| i < j < window && #[trigger] bytes[j] == 10 {
        let j = choose|j: int| i < j < window && #[trigger] bytes[j] == 10;
        lemma_last_newline(bytes, window, j);
    } else {
        assert(bytes[i] == 10);
    }
}

/// A file of up to 262144 bytes is taken whole, and a longer one is cut and says so. Bytes
/// that are no valid text, or hold a NUL, are refused.
pub proof fn law_small_files_are_taken_whole(bytes: Seq<u8>)
    ensures
        read_view(bytes) is Some <==> valid_utf8(bytes) && !bytes.contains(0u8),
        read_view(bytes) matches Some(v) ==> v.size == bytes.len() && (v.truncated
            <==> bytes.len() > 262144),
        read_view(bytes) matches Some(v) ==> (bytes.len() <= 262144 ==> v.content == decode_utf8(
            bytes,
        ) && encode_utf8(v.content) == bytes),
{
    if is_text(bytes) {
        decode_utf8_encode_utf8(bytes);
        if bytes.len() <= 262144 {
            assert(bytes.take(bytes.len() as int) =~= bytes);
        }
    }
}

/// Of a longer file as much as possible is kept: what is taken is a start of its text, and
/// neither a longer start of whole lines would fit in 262144 bytes, nor, where not one line
/// fits, a longer start of whole characters.
pub proof fn law_as_much_as_possible_is_kept(bytes: Seq<u8>, n: int)
    requires
        is_text(bytes),
        bytes.len() > 262144,
        kept_len(bytes) < n <= 262144,
        is_char_boundary(bytes, n),
    ensures
        read_view(bytes) matches Some(v) && v.content == decode_utf8(bytes.take(kept_len(bytes)))
            && v.content.is_prefix_of(decode_utf8(bytes)),
        bytes[n - 1] != 10,
        exists|i: int| 0 <= i < kept_len(bytes) && #[trigger] bytes[i] == 10,
{
    law_kept_part_is_a_clean_start(bytes);
    lemma_boundary_before(bytes, 262144);
    let window = boundary_before(bytes, 262144);
    lemma_boundary_is_last(bytes, 262144, n);
    assert(n <= window);
    if !(exists|i: int| 0 <= i < window && #[trigger] bytes[i] == 10) {
        assert(kept_len(bytes) == window);
        assert(false);
    }
    let i = choose|i: int| 0 <= i < window && #[trigger] bytes[i] == 10;
    lemma_last_newline(bytes, window, i);
    let k = choose|i: int|
        0 <= i < window && #[trigger] bytes[i] == 10 && forall|j: int|
            i < j < window ==> #[trigger] bytes[j] != 10;
    assert(kept_len(bytes) == k + 1);
    assert(bytes[k] == 10);
    assert(bytes[n - 1] != 10);
}

proof fn lemma_boundary_is_last(bytes: Seq<u8>, index: int, n: int)
    requires
        0 <= n <= index,
        is_char_boundary(bytes, n),
    ensures
        n <= boundary_before(bytes, index),
    decreases index,
{
    if index > 0 && !is_char_boundary(bytes, index) {
        lemma_boundary_is_last(bytes, index - 1, n);
    }
}

/// A name that does not start with a dot keeps its characters at their places, up to 64 of
/// them, with an underscore for each separator and control character. An empty one becomes
/// `attachment`.
pub proof fn law_names_keep_their_characters(name: Seq<char>)
    requires
        name.len() > 0 ==> name[0] != '.',
    ensures
        name.len() == 0 ==> sanitized(name) == "attachment"@,
        0 < name.len() <= 64 ==> sanitized(name).len() == name.len(),
        name.len() > 64 ==> sanitized(name).len() == 64,
        forall|i: int|
            0 <= i < name.len() && i < 64 ==> #[trigger] sanitized(name)[i] == (if name[i] == '/'
                || name[i] == '\\' || text::is_control(name[i]) {
                '_'
            } else {
                name[i]
            }),
{
    lemma_leading_dots(name, 0);
    assert(undotted(name) =~= name);
    let safe = name.map_values(|c: char| safe_char(c));
    assert(undotted(name).map_values(|c: char| safe_char(c)) =~= safe);
    assert forall|i: int| 0 <= i < name.len() && i < 64 implies #[trigger] sanitized(name)[i] == (
    if name[i] == '/' || name[i] == '\\' || text::is_control(name[i]) {
        '_'
    } else {
        name[i]
    }) by {
        assert(safe[i] == safe_char(name[i]));
    }
}

/// Dots at the start of a name do not count, nor does a part of a path made of dots alone
/// together with its separator: the name is treated as what follows.
pub proof fn law_leading_dots_do_not_count(dots: Seq<char>, c: char, rest: Seq<char>)
    requires
        dots.len() > 0,
        forall|i: int| 0 <= i < dots.len() ==> #[trigger] dots[i] == '.',
        c != '.',
    ensures
        sanitized(dots) == "attachment"@,
        c == '/' || c == '\\' ==> sanitized(dots + seq![c] + rest) == sanitized(rest),
        c != '/' && c != '\\' ==> sanitized(dots + seq![c] + rest) == sanitized(seq![c] + rest),
{
    let n = dots.len();
    let s = dots + seq![c] + rest;
    assert forall|i: int| 0 <= i < n implies #[trigger] s[i] == '.' by {
        assert(s[i] == dots[i]);
    }
    assert(s[n as int] == c);
    lemma_leading_dots(s, n);
    lemma_leading_dots(dots, n);
    assert(dots.skip(n as int) =~= Seq::<char>::empty());
    assert(undotted(dots) =~= Seq::<char>::empty());
    assert(s.skip(n as int + 1) =~= rest);
    assert(s.skip(n as int) =~= seq![c] + rest);
    let t = seq![c] + rest;
    assert(t[0] == c);
    lemma_leading_dots(t, 0);
    assert(t.skip(0) =~= t);
    if c == '/' || c == '\\' {
        assert(undotted(s) == undotted(rest));
    } else {
        assert(undotted(s) == t);
        assert(undotted(t) == t);
    }
}

/// A stored name is the start of the UUID up to its first hyphen, an underscore, and the
/// sanitized name: two attachments of one name get different stored names if their UUIDs
/// start differently.
pub proof fn law_stored_names_begin_with_the_uuid(
    group: Seq<char>,
    rest: Seq<char>,
    name: Seq<char>,
)
    requires
        !group.contains('-'),
    ensures
        stored_name(group + seq!['-'] + rest, name) == group + seq!['_'] + sanitized(name),
        stored_name(group, name) == group + seq!['_'] + sanitized(name),
{
    let uuid = group + seq!['-'] + rest;
    let n = group.len() as int;
    assert forall|i: int| 0 <= i < n implies #[trigger] uuid[i] != '-' by {
        assert(uuid[i] == group[i]);
    }
    assert(uuid[n] == '-');
    lemma_before_hyphen(uuid, n);
    assert(uuid.take(n) =~= group);
    lemma_before_hyphen(group, n);
    assert(group.take(n) =~= group);
    reveal_strlit("_");
    assert("_"@ =~= seq!['_']);
}

/// An error hands on the cause that it was made with.
pub proof fn law_errors_hand_their_cause_on(cause: String)
    ensures
        text::has(storage_message(StorageError::NotReadable(cause)), cause@),
        text::has(storage_message(StorageError::Io(cause)), cause@),
{
    let none = Seq::<char>::empty();
    let unreadable = "file not found or unreadable: "@;
    let io = "io: "@;
    text::law_pieces_stand_in_the_whole(unreadable, cause@, none);
    assert(unreadable + cause@ + none =~= unreadable + cause@);
    text::law_pieces_stand_in_the_whole(io, cause@, none);
    assert(io + cause@ + none =~= io + cause@);
}

} // verus!
