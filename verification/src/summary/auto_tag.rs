//! Picks a meeting's tags with the help of a language model.
//!
//! The model gets the tags that exist and the summary, and answers with the names that
//! apply. It never creates tags, and its answer replaces the meeting's tags.
use crate::database::models::TagModel;
use crate::text;
use vstd::prelude::*;

verus! {

broadcast use vstd::string::group_string_axioms;

/// How many characters of the text stand before its first white space.
pub open spec fn word_len(s: Seq<char>) -> nat
    decreases s.len(),
{
    if s.len() == 0 || text::is_white_space(s[0]) {
        0
    } else {
        1 + word_len(s.skip(1))
    }
}

/// The words of a text: what stands between its white space.
pub open spec fn words(s: Seq<char>) -> Seq<Seq<char>>
    decreases s.len(),
{
    let n = word_len(s) as int;
    if s.len() == 0 {
        Seq::empty()
    } else if 0 < n <= s.len() {
        seq![s.take(n)] + words(s.skip(n))
    } else {
        words(s.skip(1))
    }
}

/// The text on one line: its words with one space between each two.
pub open spec fn on_one_line(s: Seq<char>) -> Seq<char> {
    text::join(words(s), " "@)
}

proof fn lemma_word_len(s: Seq<char>, n: int)
    requires
        0 <= n <= s.len(),
        forall|i: int| 0 <= i < n ==> !text::is_white_space(#[trigger] s[i]),
        n < s.len() ==> text::is_white_space(s[n]),
    ensures
        word_len(s) == n,
    decreases n,
{
    if n > 0 {
        assert(!text::is_white_space(s[0]));
        let t = s.skip(1);
        assert forall|i: int| 0 <= i < n - 1 implies !text::is_white_space(#[trigger] t[i]) by {
            assert(t[i] == s[i + 1]);
        }
        lemma_word_len(t, n - 1);
    }
}

/// Collapses line breaks and repeated spaces, so that a tag stays on its line.
pub fn single_line(s: &str) -> (r: String)
    ensures
        r@ == on_one_line(s@),
{
    let chars = text::chars_of(s);
    let mut found: Vec<String> = Vec::new();
    let mut at: usize = 0;
    proof {
        assert(s@.skip(0) =~= s@);
        assert(text::texts(found@) + words(s@) =~= words(s@));
    }
    while at < chars.len()
        invariant
            chars@ == s@,
            at <= chars@.len(),
            text::texts(found@) + words(s@.skip(at as int)) == words(s@),
        decreases chars@.len() - at,
    {
        let ghost rest = s@.skip(at as int);
        let mut end: usize = at;
        while end < chars.len() && !text::white_space(chars[end])
            invariant
                chars@ == s@,
                at <= end <= chars@.len(),
                forall|i: int| at <= i < end ==> !text::is_white_space(#[trigger] chars@[i]),
            decreases chars@.len() - end,
        {
            end = end + 1;
        }
        proof {
            let n = end - at;
            assert forall|i: int| 0 <= i < n implies !text::is_white_space(#[trigger] rest[i]) by {
                assert(rest[i] == chars@[i + at]);
            }
            if end < chars@.len() {
                assert(rest[n] == chars@[end as int]);
            }
            lemma_word_len(rest, n);
            assert(rest.skip(n) =~= s@.skip(end as int));
            assert(rest.skip(1) =~= s@.skip(at + 1));
            assert(rest.take(n) =~= s@.subrange(at as int, end as int));
        }
        if end == at {
            at = at + 1;
        } else {
            let ghost before = found@;
            let word = s.substring_char(at, end).to_owned();
            found.push(word);
            proof {
                assert(text::texts(found@) =~= text::texts(before).push(word@));
                assert(text::texts(found@) + words(s@.skip(end as int)) =~= text::texts(before)
                    + words(rest));
            }
            at = end;
        }
    }
    proof {
        assert(words(s@.skip(at as int)) =~= Seq::<Seq<char>>::empty());
        assert(text::texts(found@) =~= words(s@));
    }
    text::join_strings(&found, " ")
}

/// What the prompt says before the list of tags.
pub const PROMPT_HEAD: &'static str = "You label meeting summaries with tags.\n\nPick every tag from the list below that clearly applies to the meeting. Use only tags from this list and copy each name exactly as written. Do not invent tags. If no tag applies, return an empty list.\n\nAvailable tags:\n";

/// What the prompt says after the list of tags.
pub const PROMPT_TAIL: &'static str = "\n\nRespond with only a JSON object and nothing else, in this exact shape:\n{\"tags\": [\"Tag name\", \"Another tag\"]}";

/// The line of a tag in the prompt: its name, and its description if it has any text.
pub open spec fn tag_line(tag: TagModel) -> Seq<char> {
    match tag.description {
        Some(d) if on_one_line(d@).len() > 0 => "- "@ + on_one_line(tag.name@) + ": "@
            + on_one_line(d@),
        _ => "- "@ + on_one_line(tag.name@),
    }
}

/// The instructions for the model: its task and the tags to choose from.
pub open spec fn system_prompt(tags: Seq<TagModel>) -> Seq<char> {
    PROMPT_HEAD@ + text::join(tags.map_values(|t: TagModel| tag_line(t)), "\n"@) + PROMPT_TAIL@
}

/// What the model is asked about: the meeting's title and summary.
pub open spec fn user_prompt(title: Seq<char>, summary: Seq<char>) -> Seq<char> {
    "Meeting title: "@ + on_one_line(title) + "\n\n<summary>\n"@ + text::trimmed(summary)
        + "\n</summary>"@
}

fn describe_tag(tag: &TagModel) -> (r: String)
    ensures
        r@ == tag_line(*tag),
{
    let name = single_line(tag.name.as_str());
    match &tag.description {
        Some(d) => {
            let description = single_line(d.as_str());
            if !description.as_str().is_empty() {
                return text::concat4("- ", name.as_str(), ": ", description.as_str());
            }
        },
        None => {},
    }
    text::concat2("- ", name.as_str())
}

/// The instructions and the question for the model.
pub fn build_prompts(tags: &[TagModel], title: &str, summary: &str) -> (r: (String, String))
    ensures
        r.0@ == system_prompt(tags@),
        r.1@ == user_prompt(title@, summary@),
{
    let mut lines: Vec<String> = Vec::new();
    let mut i: usize = 0;
    while i < tags.len()
        invariant
            i <= tags@.len(),
            lines@.len() == i,
            forall|j: int| 0 <= j < i ==> (#[trigger] lines@[j])@ == tag_line(tags@[j]),
        decreases tags@.len() - i,
    {
        lines.push(describe_tag(&tags[i]));
        i = i + 1;
    }
    proof {
        assert(text::texts(lines@) =~= tags@.map_values(|t: TagModel| tag_line(t)));
    }
    let list = text::join_strings(&lines, "\n");
    let system = text::concat3(PROMPT_HEAD, list.as_str(), PROMPT_TAIL);
    let user = text::concat5(
        "Meeting title: ",
        single_line(title).as_str(),
        "\n\n<summary>\n",
        text::trim(summary),
        "\n</summary>",
    );
    (system, user)
}

/// The first place from `from` on where one of two marks stands, with the length of the
/// mark that stands there.
pub open spec fn next_mark(s: Seq<char>, a: Seq<char>, b: Seq<char>, from: int) -> Option<
    (int, int),
>
    decreases s.len() - from + 1,
{
    if from > s.len() {
        None
    } else if text::stands_at(s, a, from) {
        Some((from, a.len() as int))
    } else if text::stands_at(s, b, from) {
        Some((from, b.len() as int))
    } else {
        next_mark(s, a, b, from + 1)
    }
}

/// The next thinking block at or after `from`: where it starts and where it ends.
pub open spec fn next_block(s: Seq<char>, from: int) -> Option<(int, int)> {
    match next_mark(s, "<think>"@, "<thinking>"@, from) {
        Some((start, open_len)) => match next_mark(
            s,
            "</think>"@,
            "</thinking>"@,
            start + open_len,
        ) {
            Some((end, close_len)) => Some((start, end + close_len)),
            None => None,
        },
        None => None,
    }
}

proof fn lemma_mark_bounds(s: Seq<char>, a: Seq<char>, b: Seq<char>, from: int)
    requires
        0 <= from,
    ensures
        match next_mark(s, a, b, from) {
            Some((at, len)) => from <= at && 0 <= len && at + len <= s.len() && (len == a.len()
                || len == b.len()),
            None => true,
        },
    decreases s.len() - from + 1,
{
    if from <= s.len() && !text::stands_at(s, a, from) && !text::stands_at(s, b, from) {
        lemma_mark_bounds(s, a, b, from + 1);
    }
}

proof fn lemma_block_bounds(s: Seq<char>, from: int)
    requires
        0 <= from,
    ensures
        match next_block(s, from) {
            Some((start, end)) => from <= start && start + 7 <= end && end <= s.len(),
            None => true,
        },
{
    reveal_strlit("<think>");
    reveal_strlit("<thinking>");
    lemma_mark_bounds(s, "<think>"@, "<thinking>"@, from);
    match next_mark(s, "<think>"@, "<thinking>"@, from) {
        Some((start, open_len)) => {
            lemma_mark_bounds(s, "</think>"@, "</thinking>"@, start + open_len);
        },
        None => {},
    }
}

/// The text from `from` on without the thinking blocks in it.
pub open spec fn unthought_from(s: Seq<char>, from: int) -> Seq<char>
    decreases s.len() - from,
{
    match next_block(s, from) {
        Some((start, end)) => {
            if from < end <= s.len() {
                s.subrange(from, start) + unthought_from(s, end)
            } else {
                Seq::empty()
            }
        },
        None => s.skip(from),
    }
}

/// The reply without its thinking blocks: each runs from `<think>` or `<thinking>` to the
/// next `</think>` or `</thinking>`. A block that is never closed stays.
pub open spec fn without_thinking(s: Seq<char>) -> Seq<char> {
    unthought_from(s, 0)
}

fn find_mark(s: &[char], a: &[char], b: &[char], from: usize) -> (r: Option<(usize, usize)>)
    requires
        from <= s@.len(),
    ensures
        match (r, next_mark(s@, a@, b@, from as int)) {
            (Some((at, len)), Some((at2, len2))) => at == at2 && len == len2,
            (None, None) => true,
            _ => false,
        },
{
    let mut at: usize = from;
    loop
        invariant
            at <= s@.len(),
            next_mark(s@, a@, b@, from as int) == next_mark(s@, a@, b@, at as int),
        decreases s@.len() - at,
    {
        if text::matches_at(s, a, at) {
            return Some((at, a.len()));
        }
        if text::matches_at(s, b, at) {
            return Some((at, b.len()));
        }
        if at == s.len() {
            proof {
                assert(next_mark(s@, a@, b@, at + 1) is None);
            }
            return None;
        }
        at = at + 1;
    }
}

/// Removes the blocks in which the model thinks aloud.
pub fn strip_thinking(reply: &str) -> (r: String)
    ensures
        r@ == without_thinking(reply@),
{
    let s = text::chars_of(reply);
    let total: usize = s.len();
    let open_short = text::chars_of("<think>");
    let open_long = text::chars_of("<thinking>");
    let close_short = text::chars_of("</think>");
    let close_long = text::chars_of("</thinking>");
    let mut out = String::new();
    let mut from: usize = 0;
    proof {
        assert(out@ + unthought_from(s@, 0) =~= without_thinking(reply@));
    }
    loop
        invariant
            s@ == reply@,
            total == s@.len(),
            open_short@ == "<think>"@,
            open_long@ == "<thinking>"@,
            close_short@ == "</think>"@,
            close_long@ == "</thinking>"@,
            from <= s@.len(),
            out@ + unthought_from(s@, from as int) == without_thinking(reply@),
        decreases s@.len() - from,
    {
        proof {
            lemma_block_bounds(s@, from as int);
            lemma_mark_bounds(s@, "<think>"@, "<thinking>"@, from as int);
        }
        let mut block: Option<(usize, usize)> = None;
        match find_mark(&s, &open_short, &open_long, from) {
            Some((start, open_len)) => {
                match find_mark(&s, &close_short, &close_long, start + open_len) {
                    Some((end, close_len)) => {
                        proof {
                            lemma_mark_bounds(
                                s@,
                                "</think>"@,
                                "</thinking>"@,
                                start + open_len,
                            );
                        }
                        block = Some((start, end + close_len));
                    },
                    None => {},
                }
            },
            None => {},
        }
        match block {
            Some((start, end)) => {
                let ghost before = out@;
                out.append(reply.substring_char(from, start));
                proof {
                    assert(out@ + unthought_from(s@, end as int) =~= before + unthought_from(
                        s@,
                        from as int,
                    ));
                }
                from = end;
            },
            None => {
                out.append(reply.substring_char(from, total));
                proof {
                    assert(reply@.subrange(from as int, s@.len() as int) =~= s@.skip(from as int));
                }
                return out;
            },
        }
    }
}

/// The position of the first such character; the length of the text where there is none.
pub open spec fn first_index(s: Seq<char>, c: char) -> int
    decreases s.len(),
{
    if s.len() == 0 || s[0] == c {
        0
    } else {
        1 + first_index(s.skip(1), c)
    }
}

/// The position of the last such character; -1 where there is none.
pub open spec fn last_index(s: Seq<char>, c: char) -> int
    decreases s.len(),
{
    if s.len() == 0 {
        -1
    } else if s.last() == c {
        s.len() - 1
    } else {
        last_index(s.drop_last(), c)
    }
}

/// From the first opening to the last closing character, where they come in that order.
pub open spec fn outer(s: Seq<char>, open: char, close: char) -> Option<Seq<char>> {
    let start = first_index(s, open);
    let end = last_index(s, close);
    if start < end {
        Some(s.subrange(start, end + 1))
    } else {
        None
    }
}

proof fn lemma_first_index(s: Seq<char>, c: char, n: int)
    requires
        0 <= n <= s.len(),
        forall|i: int| 0 <= i < n ==> #[trigger] s[i] != c,
        n < s.len() ==> s[n] == c,
    ensures
        first_index(s, c) == n,
    decreases n,
{
    if n > 0 {
        assert(s[0] != c);
        let t = s.skip(1);
        assert forall|i: int| 0 <= i < n - 1 implies #[trigger] t[i] != c by {
            assert(t[i] == s[i + 1]);
        }
        lemma_first_index(t, c, n - 1);
    }
}

proof fn lemma_last_index(s: Seq<char>, c: char, n: int)
    requires
        0 <= n <= s.len(),
        forall|i: int| n <= i < s.len() ==> #[trigger] s[i] != c,
        n > 0 ==> s[n - 1] == c,
    ensures
        last_index(s, c) == n - 1,
    decreases s.len(),
{
    if n < s.len() {
        assert(s[s.len() - 1] != c);
        let t = s.drop_last();
        assert forall|i: int| n <= i < t.len() implies #[trigger] t[i] != c by {
            assert(t[i] == s[i]);
        }
        lemma_last_index(t, c, n);
    } else if n > 0 {
        assert(s.last() == s[n - 1]);
    }
}

/// The slice from the first `open` to the last `close`, when both stand in that order.
pub fn outer_span<'a>(s: &'a str, open: char, close: char) -> (r: Option<&'a str>)
    ensures
        text::opt_str(r) == outer(s@, open, close),
{
    let chars = text::chars_of(s);
    let mut start: usize = 0;
    while start < chars.len() && chars[start] != open
        invariant
            start <= chars@.len(),
            forall|i: int| 0 <= i < start ==> #[trigger] chars@[i] != open,
        decreases chars@.len() - start,
    {
        start = start + 1;
    }
    let mut end: usize = chars.len();
    while end > 0 && chars[end - 1] != close
        invariant
            end <= chars@.len(),
            forall|i: int| end <= i < chars@.len() ==> #[trigger] chars@[i] != close,
        decreases end,
    {
        end = end - 1;
    }
    proof {
        lemma_first_index(s@, open, start as int);
        lemma_last_index(s@, close, end as int);
    }
    if end > 0 && start < end - 1 {
        Some(s.substring_char(start, end))
    } else {
        None
    }
}

/// The members of a JSON object: each name with its value as JSON text.
pub uninterp spec fn json_members(object: Seq<char>) -> Option<Seq<(Seq<char>, Seq<char>)>>;

/// The names and values of an optional list of members.
pub open spec fn opt_members(v: Option<Vec<(String, String)>>) -> Option<
    Seq<(Seq<char>, Seq<char>)>,
> {
    match v {
        Some(v) => Some(pairs(v@)),
        None => None,
    }
}

/// The texts of pairs of strings.
pub open spec fn pairs(v: Seq<(String, String)>) -> Seq<(Seq<char>, Seq<char>)> {
    v.map_values(|p: (String, String)| (p.0@, p.1@))
}

/// `serde_json::from_str` into a map of raw values, walked in the order of its names. The
/// result is named and not described: it is the members of the object, each with its value
/// as JSON text, or nothing where the text is no JSON object. Of a member that is given more
/// than once only the last is left.
#[verifier::external_body]
fn members_of(object: &str) -> (r: Option<Vec<(String, String)>>)
    ensures
        opt_members(r) == json_members(object@),
{
    let members: std::collections::BTreeMap<String, Box<serde_json::value::RawValue>> =
        serde_json::from_str(object).ok()?;
    Some(members.into_iter().map(|(name, value)| (name, value.get().to_owned())).collect())
}

/// The value of the member of that name, where there is one.
pub open spec fn value_of(members: Seq<(Seq<char>, Seq<char>)>, name: Seq<char>) -> Option<
    Seq<char>,
>
    decreases members.len(),
{
    if members.len() == 0 {
        None
    } else if members[0].0 == name {
        Some(members[0].1)
    } else {
        value_of(members.skip(1), name)
    }
}

/// Looks the member of that name up.
pub fn member_value<'a>(members: &'a [(String, String)], name: &str) -> (r: Option<&'a str>)
    ensures
        match value_of(pairs(members@), name@) {
            Some(value) => r is Some && r->0@ == value,
            None => r is None,
        },
{
    let mut i: usize = 0;
    proof {
        assert(pairs(members@).skip(0) =~= pairs(members@));
    }
    while i < members.len()
        invariant
            i <= members@.len(),
            value_of(pairs(members@).skip(i as int), name@) == value_of(pairs(members@), name@),
        decreases members@.len() - i,
    {
        let ghost rest = pairs(members@).skip(i as int);
        let (key, value) = &members[i];
        proof {
            assert(rest.len() > 0);
            assert(rest[0] == (members@[i as int].0@, members@[i as int].1@));
            assert(rest.skip(1) =~= pairs(members@).skip(i + 1));
        }
        if text::same(key.as_str(), name) {
            return Some(value.as_str());
        }
        i = i + 1;
    }
    None
}

/// The strings of a JSON array of strings.
pub uninterp spec fn json_strings(array: Seq<char>) -> Option<Seq<Seq<char>>>;

/// `serde_json::from_str` into a list of strings. The result is named and not described:
/// it is the strings of the array, or nothing where the text is no JSON array of strings.
#[verifier::external_body]
fn strings_of(array: &str) -> (r: Option<Vec<String>>)
    ensures
        opt_texts(r) == json_strings(array@),
{
    serde_json::from_str::<Vec<String>>(array).ok()
}

/// The texts of an optional list of strings.
pub open spec fn opt_texts(v: Option<Vec<String>>) -> Option<Seq<Seq<char>>> {
    match v {
        Some(v) => Some(text::texts(v@)),
        None => None,
    }
}

/// Where a JSON string ends whose opening quote stands before `from`: behind its closing
/// quote, or at the end of the text.
pub open spec fn string_end(s: Seq<char>, from: int) -> int
    decreases s.len() - from,
{
    if from < 0 || from >= s.len() {
        s.len() as int
    } else if s[from] == '"' {
        from + 1
    } else if s[from] == '\\' {
        if from + 2 <= s.len() {
            string_end(s, from + 2)
        } else {
            s.len() as int
        }
    } else {
        string_end(s, from + 1)
    }
}

/// The names of the outermost object's members in a JSON text from `from` on, each as a
/// JSON string. So many braces and brackets are open there, and `at_name` says that the next
/// string of the object is a name.
pub open spec fn names_from(s: Seq<char>, from: int, depth: nat, at_name: bool) -> Seq<Seq<char>>
    decreases s.len() - from,
{
    if from < 0 || from >= s.len() {
        Seq::empty()
    } else if s[from] == '"' {
        let end = string_end(s, from + 1);
        if from < end <= s.len() {
            let rest = names_from(s, end, depth, false);
            if depth == 1 && at_name {
                seq![s.subrange(from, end)] + rest
            } else {
                rest
            }
        } else {
            Seq::empty()
        }
    } else if s[from] == '{' || s[from] == '[' {
        names_from(s, from + 1, depth + 1, depth == 0)
    } else if s[from] == '}' || s[from] == ']' {
        names_from(
            s,
            from + 1,
            if depth == 0 {
                0
            } else {
                (depth - 1) as nat
            },
            false,
        )
    } else if s[from] == ',' {
        names_from(s, from + 1, depth, depth == 1)
    } else {
        names_from(s, from + 1, depth, at_name)
    }
}

proof fn lemma_string_end(s: Seq<char>, from: int)
    requires
        0 <= from <= s.len(),
    ensures
        from <= string_end(s, from) <= s.len(),
    decreases s.len() - from,
{
    if from < s.len() && s[from] != '"' {
        if s[from] == '\\' {
            if from + 2 <= s.len() {
                lemma_string_end(s, from + 2);
            }
        } else {
            lemma_string_end(s, from + 1);
        }
    }
}

fn end_of_string(s: &[char], from: usize) -> (r: usize)
    requires
        from <= s@.len(),
    ensures
        r == string_end(s@, from as int),
        from <= r <= s@.len(),
{
    let mut at: usize = from;
    while at < s.len()
        invariant
            from <= at <= s@.len(),
            string_end(s@, at as int) == string_end(s@, from as int),
        decreases s@.len() - at,
    {
        if s[at] == '"' {
            return at + 1;
        }
        if s[at] == '\\' {
            if s.len() - at < 2 {
                return s.len();
            }
            at = at + 2;
        } else {
            at = at + 1;
        }
    }
    at
}

/// Behind the brace that closes the last one of so many open braces, where there is one from
/// `from` on. Braces inside strings do not count.
pub open spec fn brace_end(s: Seq<char>, from: int, open: nat) -> Option<int>
    decreases s.len() - from,
{
    if from < 0 || from >= s.len() {
        None
    } else if s[from] == '"' {
        let end = string_end(s, from + 1);
        if from < end <= s.len() {
            brace_end(s, end, open)
        } else {
            None
        }
    } else if s[from] == '{' {
        brace_end(s, from + 1, open + 1)
    } else if s[from] == '}' {
        if open <= 1 {
            Some(from + 1)
        } else {
            brace_end(s, from + 1, (open - 1) as nat)
        }
    } else {
        brace_end(s, from + 1, open)
    }
}

/// From the opening brace at that place to the brace that closes it.
pub open spec fn braced(s: Seq<char>, at: int) -> Option<Seq<char>> {
    if 0 <= at < s.len() && s[at] == '{' {
        match brace_end(s, at + 1, 1) {
            Some(end) => Some(s.subrange(at, end)),
            None => None,
        }
    } else {
        None
    }
}

/// Is there such a text, and does the JSON reader take it for an object?
pub open spec fn is_object(text: Option<Seq<char>>) -> bool {
    text matches Some(t) && json_members(t) is Some
}

/// The first JSON object that begins at `from` or later.
pub open spec fn object_from(s: Seq<char>, from: int) -> Option<Seq<char>>
    decreases s.len() - from,
{
    if from < 0 || from >= s.len() {
        None
    } else if is_object(braced(s, from)) {
        braced(s, from)
    } else {
        object_from(s, from + 1)
    }
}

/// The first JSON object of a text.
pub open spec fn first_object(s: Seq<char>) -> Option<Seq<char>> {
    object_from(s, 0)
}

proof fn lemma_brace_end(s: Seq<char>, from: int, open: nat)
    requires
        0 <= from <= s.len(),
    ensures
        brace_end(s, from, open) matches Some(end) ==> from < end <= s.len(),
    decreases s.len() - from,
{
    if from < s.len() {
        if s[from] == '"' {
            let end = string_end(s, from + 1);
            if from < end <= s.len() {
                lemma_brace_end(s, end, open);
            }
        } else if s[from] == '{' {
            lemma_brace_end(s, from + 1, open + 1);
        } else if s[from] == '}' {
            if open > 1 {
                lemma_brace_end(s, from + 1, (open - 1) as nat);
            }
        } else {
            lemma_brace_end(s, from + 1, open);
        }
    }
}

fn closing_brace(s: &[char], from: usize) -> (r: Option<usize>)
    requires
        1 <= from <= s@.len(),
    ensures
        match brace_end(s@, from as int, 1) {
            Some(end) => r == Some(end as usize) && from < end <= s@.len(),
            None => r is None,
        },
{
    let mut at: usize = from;
    let mut open: usize = 1;
    proof {
        lemma_brace_end(s@, from as int, 1);
    }
    while at < s.len()
        invariant
            1 <= from <= at <= s@.len(),
            1 <= open <= at - from + 1,
            brace_end(s@, at as int, open as nat) == brace_end(s@, from as int, 1),
            brace_end(s@, from as int, 1) matches Some(end) ==> from < end <= s@.len(),
        decreases s@.len() - at,
    {
        let c = s[at];
        if c == '"' {
            at = end_of_string(s, at + 1);
        } else if c == '{' {
            open = open + 1;
            at = at + 1;
        } else if c == '}' {
            if open <= 1 {
                return Some(at + 1);
            }
            open = open - 1;
            at = at + 1;
        } else {
            at = at + 1;
        }
    }
    None
}

/// Reads from the opening brace at that place to the brace that closes it.
pub fn braced_at<'a>(s: &'a str, at: usize) -> (r: Option<&'a str>)
    ensures
        match braced(s@, at as int) {
            Some(t) => r is Some && r->0@ == t,
            None => r is None,
        },
{
    let chars = text::chars_of(s);
    if at < chars.len() && chars[at] == '{' {
        match closing_brace(&chars, at + 1) {
            Some(end) => Some(s.substring_char(at, end)),
            None => None,
        }
    } else {
        None
    }
}

fn find_object<'a>(s: &'a str) -> (r: Option<&'a str>)
    ensures
        match first_object(s@) {
            Some(t) => r is Some && r->0@ == t,
            None => r is None,
        },
{
    let chars = text::chars_of(s);
    let mut at: usize = 0;
    while at < chars.len()
        invariant
            chars@ == s@,
            at <= s@.len(),
            object_from(s@, at as int) == first_object(s@),
        decreases s@.len() - at,
    {
        if chars[at] == '{' {
            if let Some(object) = braced_at(s, at) {
                if members_of(object).is_some() {
                    return Some(object);
                }
            }
        }
        at = at + 1;
    }
    None
}

/// The names of a JSON object's members, each as a JSON string, in their order.
pub fn member_names(object: &str) -> (r: Vec<String>)
    ensures
        text::texts(r@) == names_from(object@, 0, 0, false),
{
    let s = text::chars_of(object);
    let mut names: Vec<String> = Vec::new();
    let mut at: usize = 0;
    let mut depth: usize = 0;
    let mut at_name = false;
    proof {
        assert(text::texts(names@) =~= Seq::<Seq<char>>::empty());
    }
    while at < s.len()
        invariant
            s@ == object@,
            at <= s@.len(),
            depth <= at,
            text::texts(names@) + names_from(s@, at as int, depth as nat, at_name) == names_from(
                object@,
                0,
                0,
                false,
            ),
        decreases s@.len() - at,
    {
        let ghost before = names@;
        let c = s[at];
        if c == '"' {
            proof {
                lemma_string_end(s@, at + 1);
            }
            let end = end_of_string(&s, at + 1);
            if depth == 1 && at_name {
                let name = object.substring_char(at, end).to_owned();
                names.push(name);
                proof {
                    assert(text::texts(names@) =~= text::texts(before).push(name@));
                    let rest = names_from(s@, end as int, 1, false);
                    assert(text::texts(before) + (seq![name@] + rest) =~= text::texts(names@)
                        + rest);
                }
            }
            at_name = false;
            at = end;
        } else if c == '{' || c == '[' {
            at_name = depth == 0;
            depth = depth + 1;
            at = at + 1;
        } else if c == '}' || c == ']' {
            at_name = false;
            if depth > 0 {
                depth = depth - 1;
            }
            at = at + 1;
        } else if c == ',' {
            at_name = depth == 1;
            at = at + 1;
        } else {
            at = at + 1;
        }
    }
    proof {
        assert(text::texts(names@) + Seq::<Seq<char>>::empty() =~= text::texts(names@));
    }
    names
}

/// Is this JSON string the name `tags`, however it is written?
pub open spec fn is_tags_name(name: Seq<char>) -> bool {
    json_strings("["@ + name + "]"@) == Some(seq!["tags"@])
}

/// How many of the names are `tags`.
pub open spec fn tags_named(names: Seq<Seq<char>>) -> nat
    decreases names.len(),
{
    if names.len() == 0 {
        0
    } else {
        tags_named(names.drop_last()) + if is_tags_name(names.last()) {
            1nat
        } else {
            0
        }
    }
}

/// Does an object give the member `tags` more than once? Then it says nothing clear.
pub open spec fn is_ambiguous(object: Seq<char>) -> bool {
    tags_named(names_from(object, 0, 0, false)) > 1
}

fn ambiguous(object: &str) -> (r: bool)
    ensures
        r == is_ambiguous(object@),
{
    let names = member_names(object);
    let mut found: usize = 0;
    let mut i: usize = 0;
    while i < names.len()
        invariant
            i <= names@.len(),
            found <= i,
            found == tags_named(text::texts(names@).take(i as int)),
        decreases names@.len() - i,
    {
        proof {
            let now = text::texts(names@).take(i + 1);
            assert(now.drop_last() =~= text::texts(names@).take(i as int));
            assert(now.last() == names@[i as int]@);
        }
        let read = strings_of(text::concat3("[", names[i].as_str(), "]").as_str());
        let is_tags = match &read {
            Some(strings) => strings.len() == 1 && text::same(strings[0].as_str(), "tags"),
            None => false,
        };
        proof {
            if read is Some && is_tags {
                assert(text::texts(read->0@) =~= seq!["tags"@]);
            }
            if is_tags_name(names@[i as int]@) {
                assert(read is Some && text::texts(read->0@) == seq!["tags"@]);
                assert(text::texts(read->0@).len() == 1);
                assert(text::texts(read->0@)[0] == read->0@[0]@);
            }
        }
        if is_tags {
            found = found + 1;
        }
        i = i + 1;
    }
    proof {
        assert(text::texts(names@).take(names@.len() as int) =~= text::texts(names@));
    }
    found > 1
}

/// Does that place lie between an opening brace and the brace that closes it?
pub open spec fn inside_braces(s: Seq<char>, at: int) -> bool {
    exists|i: int|
        0 <= i < at && (#[trigger] braced(s, i)) is Some && at < i + braced(s, i)->0.len()
}

/// A list that stands by itself: from the first opening to the last closing bracket, unless
/// it begins inside of braces.
pub open spec fn bare_array(s: Seq<char>) -> Option<Seq<char>> {
    if inside_braces(s, first_index(s, '[')) {
        None
    } else {
        outer(s, '[', ']')
    }
}

fn is_inside_braces(s: &[char], at: usize) -> (r: bool)
    requires
        at <= s@.len(),
    ensures
        r == inside_braces(s@, at as int),
{
    let mut i: usize = 0;
    while i < at
        invariant
            i <= at <= s@.len(),
            forall|j: int|
                0 <= j < i ==> !((#[trigger] braced(s@, j)) is Some && at < j + braced(
                    s@,
                    j,
                )->0.len()),
        decreases at - i,
    {
        if s[i] == '{' {
            if let Some(end) = closing_brace(s, i + 1) {
                if at < end {
                    proof {
                        assert(braced(s@, i as int) is Some);
                    }
                    return true;
                }
            }
        }
        i = i + 1;
    }
    false
}

fn find_bare_array<'a>(s: &'a str) -> (r: Option<&'a str>)
    ensures
        match bare_array(s@) {
            Some(t) => r is Some && r->0@ == t,
            None => r is None,
        },
{
    let chars = text::chars_of(s);
    let mut at: usize = 0;
    while at < chars.len() && chars[at] != '['
        invariant
            chars@ == s@,
            at <= s@.len(),
            forall|i: int| 0 <= i < at ==> #[trigger] s@[i] != '[',
        decreases s@.len() - at,
    {
        at = at + 1;
    }
    proof {
        lemma_first_index(s@, '[', at as int);
    }
    if is_inside_braces(&chars, at) {
        return None;
    }
    outer_span(s, '[', ']')
}

/// Where the tag names stand in a reply.
#[derive(Debug, Clone, Copy, PartialEq, Eq)]
pub enum ReplyPart<'a> {
    /// In this JSON object.
    Object(&'a str),
    /// In this JSON array: the reply has no object at all.
    Array(&'a str),
    /// Nowhere.
    Nothing,
}

/// The part of a reply, freed from thinking blocks, that is read: the first JSON object, and
/// only without any a list that stands by itself.
pub fn reply_part<'a>(cleaned: &'a str) -> (r: ReplyPart<'a>)
    ensures
        match first_object(cleaned@) {
            Some(object) => r matches ReplyPart::Object(t) && t@ == object,
            None => match bare_array(cleaned@) {
                Some(array) => r matches ReplyPart::Array(t) && t@ == array,
                None => r is Nothing,
            },
        },
{
    if let Some(object) = find_object(cleaned) {
        return ReplyPart::Object(object);
    }
    match find_bare_array(cleaned) {
        Some(array) => ReplyPart::Array(array),
        None => ReplyPart::Nothing,
    }
}

/// The tag names that an object gives in its member `tags`.
pub open spec fn names_in_object(object: Seq<char>) -> Option<Seq<Seq<char>>> {
    if is_ambiguous(object) {
        None
    } else {
        match json_members(object) {
            Some(members) => match value_of(members, "tags"@) {
                Some(value) => json_strings(value),
                None => None,
            },
            None => None,
        }
    }
}

/// The tag names that a reply gives: those of its first JSON object. An object of another
/// shape is no list of tags, so only a reply without any object is read as a bare array.
pub open spec fn names_in_reply(reply: Seq<char>) -> Option<Seq<Seq<char>>> {
    let cleaned = without_thinking(reply);
    match first_object(cleaned) {
        Some(object) => names_in_object(object),
        None => match bare_array(cleaned) {
            Some(array) => json_strings(array),
            None => None,
        },
    }
}

/// Reads the tag names out of the model's reply, from its first JSON object, by the member
/// `tags`, or from a bare array, with thinking blocks, code fences or prose around it. Nothing
/// comes back where the reply cannot be read, or its object gives `tags` more than once.
pub fn parse_tag_names(response: &str) -> (r: Option<Vec<String>>)
    ensures
        opt_texts(r) == names_in_reply(response@),
{
    let cleaned = strip_thinking(response);
    match reply_part(cleaned.as_str()) {
        ReplyPart::Object(object) => {
            if ambiguous(object) {
                return None;
            }
            match members_of(object) {
                Some(members) => match member_value(&members, "tags") {
                    Some(value) => strings_of(value),
                    None => None,
                },
                None => None,
            }
        },
        ReplyPart::Array(array) => strings_of(array),
        ReplyPart::Nothing => None,
    }
}

/// The form in which names are compared: trimmed, in lower case.
pub open spec fn name_key(name: Seq<char>) -> Seq<char> {
    text::lower_case(text::trimmed(name))
}

/// The forms of several names.
pub open spec fn name_keys(names: Seq<Seq<char>>) -> Seq<Seq<char>> {
    names.map_values(|n: Seq<char>| name_key(n))
}

/// The names of the tags.
pub open spec fn tag_names(tags: Seq<TagModel>) -> Seq<Seq<char>> {
    tags.map_values(|t: TagModel| t.name@)
}

/// The ids of the tags.
pub open spec fn tag_ids(tags: Seq<TagModel>) -> Seq<Seq<char>> {
    tags.map_values(|t: TagModel| t.id@)
}

/// The first position of a text in a list; the list's length where it is not in it.
pub open spec fn first_position(list: Seq<Seq<char>>, wanted: Seq<char>) -> int
    decreases list.len(),
{
    if list.len() == 0 || list[0] == wanted {
        0
    } else {
        1 + first_position(list.skip(1), wanted)
    }
}

/// The ids that belong to the wanted keys, in the order of the keys. Unknown keys are
/// dropped, and an id is taken only the first time.
pub open spec fn picked_ids(
    wanted: Seq<Seq<char>>,
    keys: Seq<Seq<char>>,
    ids: Seq<Seq<char>>,
) -> Seq<Seq<char>>
    decreases wanted.len(),
{
    if wanted.len() == 0 {
        Seq::empty()
    } else {
        let before = picked_ids(wanted.drop_last(), keys, ids);
        let at = first_position(keys, wanted.last());
        if at < ids.len() && !before.contains(ids[at]) {
            before.push(ids[at])
        } else {
            before
        }
    }
}

proof fn lemma_first_position(list: Seq<Seq<char>>, wanted: Seq<char>, n: int)
    requires
        0 <= n <= list.len(),
        forall|i: int| 0 <= i < n ==> #[trigger] list[i] != wanted,
        n < list.len() ==> list[n] == wanted,
    ensures
        first_position(list, wanted) == n,
    decreases n,
{
    if n > 0 {
        assert(list[0] != wanted);
        let t = list.skip(1);
        assert forall|i: int| 0 <= i < n - 1 implies #[trigger] t[i] != wanted by {
            assert(t[i] == list[i + 1]);
        }
        lemma_first_position(t, wanted, n - 1);
    }
}

fn position_of(list: &[String], wanted: &String) -> (r: usize)
    ensures
        r == first_position(text::texts(list@), wanted@),
        r <= list@.len(),
{
    let mut i: usize = 0;
    while i < list.len() && list[i] != *wanted
        invariant
            i <= list@.len(),
            forall|j: int| 0 <= j < i ==> (#[trigger] list@[j])@ != wanted@,
        decreases list@.len() - i,
    {
        i = i + 1;
    }
    proof {
        let t = text::texts(list@);
        assert forall|j: int| 0 <= j < i implies #[trigger] t[j] != wanted@ by {
            assert(t[j] == list@[j]@);
        }
        lemma_first_position(t, wanted@, i as int);
    }
    i
}

proof fn lemma_contains_position(list: Seq<Seq<char>>, wanted: Seq<char>)
    ensures
        list.contains(wanted) <==> first_position(list, wanted) < list.len(),
        0 <= first_position(list, wanted) <= list.len(),
    decreases list.len(),
{
    if list.len() > 0 {
        if list[0] != wanted {
            lemma_contains_position(list.skip(1), wanted);
            if list.contains(wanted) {
                let i = choose|i: int| 0 <= i < list.len() && list[i] == wanted;
                assert(list.skip(1)[i - 1] == wanted);
            }
            if list.skip(1).contains(wanted) {
                let i = choose|i: int| 0 <= i < list.len() - 1 && list.skip(1)[i] == wanted;
                assert(list[i + 1] == wanted);
            }
        } else {
            assert(list[0] == wanted);
        }
    }
}

/// Maps keys to the ids of the tags that have them; `keys` and `ids` go side by side.
pub fn pick_ids(wanted: &[String], keys: &[String], ids: &[String]) -> (r: Vec<String>)
    requires
        keys@.len() == ids@.len(),
    ensures
        text::texts(r@) == picked_ids(
            text::texts(wanted@),
            text::texts(keys@),
            text::texts(ids@),
        ),
{
    let mut out: Vec<String> = Vec::new();
    let mut i: usize = 0;
    while i < wanted.len()
        invariant
            i <= wanted@.len(),
            keys@.len() == ids@.len(),
            text::texts(out@) == picked_ids(
                text::texts(wanted@).take(i as int),
                text::texts(keys@),
                text::texts(ids@),
            ),
        decreases wanted@.len() - i,
    {
        proof {
            let now = text::texts(wanted@).take(i + 1);
            assert(now.drop_last() =~= text::texts(wanted@).take(i as int));
            assert(now.last() == wanted@[i as int]@);
        }
        let at = position_of(keys, &wanted[i]);
        if at < ids.len() {
            proof {
                lemma_contains_position(text::texts(out@), ids@[at as int]@);
            }
            if position_of(&out, &ids[at]) == out.len() {
                let ghost before = out@;
                let id = ids[at].clone();
                out.push(id);
                proof {
                    assert(text::texts(out@) =~= text::texts(before).push(ids@[at as int]@));
                }
            }
        }
        i = i + 1;
    }
    proof {
        assert(text::texts(wanted@).take(wanted@.len() as int) =~= text::texts(wanted@));
    }
    out
}

fn key_of(name: &str) -> (r: String)
    ensures
        r@ == name_key(name@),
{
    text::to_lower_case(text::trim(name))
}

/// Maps names to tag ids: trimmed and in any case, each id once, in the order of the
/// names. Unknown names are dropped, and of tags with the same name the first counts.
pub fn resolve_tag_ids(names: &[String], tags: &[TagModel]) -> (r: Vec<String>)
    ensures
        text::texts(r@) == picked_ids(
            name_keys(text::texts(names@)),
            name_keys(tag_names(tags@)),
            tag_ids(tags@),
        ),
{
    let mut wanted: Vec<String> = Vec::new();
    let mut i: usize = 0;
    while i < names.len()
        invariant
            i <= names@.len(),
            wanted@.len() == i,
            forall|j: int| 0 <= j < i ==> (#[trigger] wanted@[j])@ == name_key(names@[j]@),
        decreases names@.len() - i,
    {
        wanted.push(key_of(names[i].as_str()));
        i = i + 1;
    }
    let mut keys: Vec<String> = Vec::new();
    let mut ids: Vec<String> = Vec::new();
    let mut k: usize = 0;
    while k < tags.len()
        invariant
            k <= tags@.len(),
            keys@.len() == k,
            ids@.len() == k,
            forall|j: int| 0 <= j < k ==> (#[trigger] keys@[j])@ == name_key(tags@[j].name@),
            forall|j: int| 0 <= j < k ==> (#[trigger] ids@[j])@ == tags@[j].id@,
        decreases tags@.len() - k,
    {
        keys.push(key_of(tags[k].name.as_str()));
        ids.push(tags[k].id.clone());
        k = k + 1;
    }
    proof {
        assert(text::texts(wanted@) =~= name_keys(text::texts(names@)));
        assert(text::texts(keys@) =~= name_keys(tag_names(tags@)));
        assert(text::texts(ids@) =~= tag_ids(tags@));
    }
    pick_ids(&wanted, &keys, &ids)
}

/// Is there anything to tag? Only a summary with text, and only if tags exist.
pub fn has_work(summary: &str, tag_count: usize) -> (r: bool)
    ensures
        r == (!text::is_blank(summary@) && tag_count > 0),
{
    !text::trim(summary).is_empty() && tag_count > 0
}

/// What becomes of a reply with these names and the ids of the tags that they stand for: the
/// ids that take the place of the meeting's tags, or why the tags stay as they are.
pub open spec fn verdict(
    response: Seq<char>,
    names: Option<Seq<Seq<char>>>,
    ids: Seq<Seq<char>>,
) -> Result<Seq<Seq<char>>, Seq<char>> {
    match names {
        None => Err("could not read tags from the LLM reply: "@ + text::trimmed(response)),
        Some(names) => if names.len() > 0 && ids.len() == 0 {
            Err("the LLM picked no existing tag (reply: "@ + text::join(names, ", "@) + ")"@)
        } else {
            Ok(ids)
        },
    }
}

/// The texts of a verdict.
pub open spec fn verdict_texts(r: Result<Vec<String>, String>) -> Result<
    Seq<Seq<char>>,
    Seq<char>,
> {
    match r {
        Ok(ids) => Ok(text::texts(ids@)),
        Err(e) => Err(e@),
    }
}

/// The ids that take the place of a meeting's tags, or why the tags stay as they are. A
/// reply with names that are all unknown ignores the list of tags, so it wipes nothing;
/// an empty list of names takes all tags away.
pub fn accept_names(response: &str, names: Option<Vec<String>>, ids: Vec<String>) -> (r: Result<
    Vec<String>,
    String,
>)
    ensures
        verdict_texts(r) == verdict(response@, opt_texts(names), text::texts(ids@)),
        match names {
            None => r matches Err(e) && e@ == "could not read tags from the LLM reply: "@
                + text::trimmed(response@),
            Some(names) => if names@.len() > 0 && ids@.len() == 0 {
                r matches Err(e) && e@ == "the LLM picked no existing tag (reply: "@ + text::join(
                    text::texts(names@),
                    ", "@,
                ) + ")"@
            } else {
                r == Ok::<Vec<String>, String>(ids)
            },
        },
{
    proof {
        assert(text::texts(ids@).len() == ids@.len());
        if names is Some {
            assert(text::texts(names->0@).len() == names->0@.len());
        }
    }
    match names {
        None => Err(
            text::concat2("could not read tags from the LLM reply: ", text::trim(response)),
        ),
        Some(names) => {
            if names.len() > 0 && ids.len() == 0 {
                let list = text::join_strings(&names, ", ");
                return Err(
                    text::concat3(
                        "the LLM picked no existing tag (reply: ",
                        list.as_str(),
                        ")",
                    ),
                );
            }
            Ok(ids)
        },
    }
}

/// The ids that a reply's names stand for among the tags.
pub open spec fn reply_ids(reply: Seq<char>, tags: Seq<TagModel>) -> Seq<Seq<char>> {
    match names_in_reply(reply) {
        Some(names) => picked_ids(
            name_keys(names),
            name_keys(tag_names(tags)),
            tag_ids(tags),
        ),
        None => Seq::empty(),
    }
}

/// Reads the model's reply: the ids that take the place of the meeting's tags, or why
/// the tags stay as they are.
pub fn tags_from_reply(response: &str, tags: &[TagModel]) -> (r: Result<Vec<String>, String>)
    ensures
        verdict_texts(r) == verdict(
            response@,
            names_in_reply(response@),
            reply_ids(response@, tags@),
        ),
        match names_in_reply(response@) {
            None => r matches Err(e) && e@ == "could not read tags from the LLM reply: "@
                + text::trimmed(response@),
            Some(names) => if names.len() > 0 && reply_ids(response@, tags@).len() == 0 {
                r matches Err(e) && e@ == "the LLM picked no existing tag (reply: "@ + text::join(
                    names,
                    ", "@,
                ) + ")"@
            } else {
                r matches Ok(ids) && text::texts(ids@) == reply_ids(response@, tags@)
            },
        },
{
    let names = parse_tag_names(response);
    let ids = match &names {
        Some(names) => resolve_tag_ids(names, tags),
        None => Vec::new(),
    };
    proof {
        if names is Some {
            assert(text::texts(names->0@).len() == names->0@.len());
            assert(text::texts(ids@).len() == ids@.len());
        }
    }
    accept_names(response, names, ids)
}

/// Only ids of existing tags are picked, and none twice.
pub proof fn law_only_existing_tags_once(
    wanted: Seq<Seq<char>>,
    keys: Seq<Seq<char>>,
    ids: Seq<Seq<char>>,
)
    requires
        keys.len() == ids.len(),
    ensures
        picked_ids(wanted, keys, ids).no_duplicates(),
        forall|i: int|
            0 <= i < picked_ids(wanted, keys, ids).len() ==> ids.contains(
                #[trigger] picked_ids(wanted, keys, ids)[i],
            ),
        picked_ids(wanted, keys, ids).len() <= wanted.len(),
    decreases wanted.len(),
{
    if wanted.len() > 0 {
        law_only_existing_tags_once(wanted.drop_last(), keys, ids);
        lemma_contains_position(keys, wanted.last());
        let before = picked_ids(wanted.drop_last(), keys, ids);
        let all = picked_ids(wanted, keys, ids);
        let at = first_position(keys, wanted.last());
        if at < ids.len() && !before.contains(ids[at]) {
            assert forall|i: int| 0 <= i < all.len() implies ids.contains(#[trigger] all[i]) by {
                if i < before.len() {
                    assert(all[i] == before[i]);
                }
            }
            assert forall|i: int, j: int|
                0 <= i < all.len() && 0 <= j < all.len() && i != j implies #[trigger] all[i]
                != #[trigger] all[j] by {
                if i < before.len() {
                    assert(before.contains(before[i]));
                }
                if j < before.len() {
                    assert(before.contains(before[j]));
                }
            }
        }
    }
}

/// Every wanted key that some tag has is honoured: the id of the first tag with that key
/// is among the picked ones.
pub proof fn law_known_names_are_picked(
    wanted: Seq<Seq<char>>,
    keys: Seq<Seq<char>>,
    ids: Seq<Seq<char>>,
    i: int,
)
    requires
        keys.len() == ids.len(),
        0 <= i < wanted.len(),
        keys.contains(wanted[i]),
    ensures
        picked_ids(wanted, keys, ids).contains(ids[first_position(keys, wanted[i])]),
    decreases wanted.len(),
{
    lemma_contains_position(keys, wanted[i]);
    let head = wanted.drop_last();
    let before = picked_ids(head, keys, ids);
    let all = picked_ids(wanted, keys, ids);
    let id = ids[first_position(keys, wanted[i])];
    if i < head.len() {
        law_known_names_are_picked(head, keys, ids, i);
        let k = choose|k: int| 0 <= k < before.len() && before[k] == id;
        assert(all[k] == id);
    } else {
        assert(wanted.last() == wanted[i]);
        if before.contains(id) {
            let k = choose|k: int| 0 <= k < before.len() && before[k] == id;
            assert(all[k] == id);
        } else {
            assert(all[all.len() - 1] == id);
        }
    }
}

proof fn lemma_words_are_solid(s: Seq<char>)
    ensures
        forall|i: int, j: int|
            0 <= i < words(s).len() && 0 <= j < words(s)[i].len() ==> !text::is_white_space(
                #[trigger] words(s)[i][j],
            ),
        forall|i: int| 0 <= i < words(s).len() ==> (#[trigger] words(s)[i]).len() > 0,
    decreases s.len(),
{
    let n = word_len(s) as int;
    if s.len() > 0 {
        if 0 < n <= s.len() {
            lemma_words_are_solid(s.skip(n));
            lemma_word_is_solid(s);
            let rest = words(s.skip(n));
            let all = words(s);
            assert(all == seq![s.take(n)] + rest);
            assert forall|i: int, j: int|
                0 <= i < all.len() && 0 <= j < all[i].len() implies !text::is_white_space(
                #[trigger] all[i][j],
            ) by {
                if i > 0 {
                    assert(all[i] == rest[i - 1]);
                }
            }
            assert forall|i: int| 0 <= i < all.len() implies (#[trigger] all[i]).len() > 0 by {
                if i > 0 {
                    assert(all[i] == rest[i - 1]);
                }
            }
        } else {
            lemma_words_are_solid(s.skip(1));
            assert(words(s) == words(s.skip(1)));
        }
    } else {
        assert(words(s).len() == 0);
    }
}

proof fn lemma_word_is_solid(s: Seq<char>)
    ensures
        forall|j: int|
            0 <= j < word_len(s) && j < s.len() ==> !text::is_white_space(#[trigger] s[j]),
    decreases s.len(),
{
    if s.len() > 0 && !text::is_white_space(s[0]) {
        let t = s.skip(1);
        lemma_word_is_solid(t);
        assert forall|j: int| 0 <= j < word_len(s) && j < s.len() implies !text::is_white_space(
            #[trigger] s[j],
        ) by {
            if j > 0 {
                assert(s[j] == t[j - 1]);
            }
        }
    }
}

proof fn lemma_join_spaces(parts: Seq<Seq<char>>)
    requires
        forall|i: int, j: int|
            0 <= i < parts.len() && 0 <= j < parts[i].len() ==> !text::is_white_space(
                #[trigger] parts[i][j],
            ),
    ensures
        forall|k: int|
            0 <= k < text::join(parts, " "@).len() ==> (text::is_white_space(
                #[trigger] text::join(parts, " "@)[k],
            ) ==> text::join(parts, " "@)[k] == ' '),
    decreases parts.len(),
{
    reveal_strlit(" ");
    if parts.len() == 1 {
        assert(text::join(parts, " "@) == parts[0]);
        assert forall|k: int| 0 <= k < parts[0].len() implies !text::is_white_space(
            #[trigger] parts[0][k],
        ) by {}
    } else if parts.len() > 1 {
        let head = parts.drop_last();
        assert forall|i: int, j: int|
            0 <= i < head.len() && 0 <= j < head[i].len() implies !text::is_white_space(
            #[trigger] head[i][j],
        ) by {
            assert(head[i][j] == parts[i][j]);
        }
        lemma_join_spaces(head);
        let front = text::join(head, " "@);
        let all = text::join(parts, " "@);
        assert forall|k: int| 0 <= k < all.len() && text::is_white_space(
            #[trigger] all[k],
        ) implies all[k] == ' ' by {
            if k < front.len() {
                assert(all[k] == front[k]);
            } else if k == front.len() {
                assert(all[k] == ' ');
            } else {
                let m = k - front.len() - 1;
                assert(all[k] == parts[parts.len() - 1][m]);
            }
        }
    }
}

/// A text brought to one line holds no white space but single spaces, so no line break:
/// each tag takes exactly one line of the prompt.
pub proof fn law_one_line_has_no_line_break(s: Seq<char>)
    ensures
        forall|k: int|
            0 <= k < on_one_line(s).len() ==> (text::is_white_space(
                #[trigger] on_one_line(s)[k],
            ) ==> on_one_line(s)[k] == ' '),
        !on_one_line(s).contains('\n'),
{
    lemma_words_are_solid(s);
    lemma_join_spaces(words(s));
    assert(text::is_white_space('\n'));
}

proof fn lemma_shift_stands(s: Seq<char>, k: int, part: Seq<char>, i: int)
    requires
        0 <= k <= s.len(),
        0 <= i,
    ensures
        text::stands_at(s, part, k + i) == text::stands_at(s.skip(k), part, i),
{
    if i <= s.len() - k - part.len() {
        assert(s.subrange(k + i, k + i + part.len()) =~= s.skip(k).subrange(i, i + part.len()));
    }
}

proof fn lemma_shift_mark(s: Seq<char>, k: int, a: Seq<char>, b: Seq<char>, from: int)
    requires
        0 <= k <= s.len(),
        0 <= from,
    ensures
        next_mark(s, a, b, k + from) == match next_mark(s.skip(k), a, b, from) {
            Some((at, len)) => Some((k + at, len)),
            None => None,
        },
    decreases s.len() - k - from + 1,
{
    if k + from <= s.len() {
        lemma_shift_stands(s, k, a, from);
        lemma_shift_stands(s, k, b, from);
        lemma_shift_mark(s, k, a, b, from + 1);
    }
}

proof fn lemma_shift_unthought(s: Seq<char>, k: int, from: int)
    requires
        0 <= k <= s.len(),
        0 <= from,
        k + from <= s.len(),
    ensures
        unthought_from(s, k + from) == unthought_from(s.skip(k), from),
    decreases s.len() - k - from,
{
    let t = s.skip(k);
    lemma_shift_mark(s, k, "<think>"@, "<thinking>"@, from);
    lemma_block_bounds(t, from);
    lemma_mark_bounds(t, "<think>"@, "<thinking>"@, from);
    match next_mark(t, "<think>"@, "<thinking>"@, from) {
        Some((start, len)) => {
            lemma_shift_mark(s, k, "</think>"@, "</thinking>"@, start + len);
        },
        None => {},
    }
    match next_block(t, from) {
        Some((start, end)) => {
            assert(next_block(s, k + from) == Some((k + start, k + end)));
            lemma_shift_unthought(s, k, end);
            assert(s.subrange(k + from, k + start) =~= t.subrange(from, start));
        },
        None => {
            assert(s.skip(k + from) =~= t.skip(from));
        },
    }
}

proof fn lemma_skip_to_mark(s: Seq<char>, a: Seq<char>, b: Seq<char>, from: int, at: int)
    requires
        0 <= from <= at <= s.len(),
        text::stands_at(s, a, at),
        forall|i: int|
            from <= i < at ==> !#[trigger] text::stands_at(s, a, i) && !text::stands_at(s, b, i),
    ensures
        next_mark(s, a, b, from) == Some((at, a.len() as int)),
    decreases at - from,
{
    if from < at {
        assert(!text::stands_at(s, a, from));
        lemma_skip_to_mark(s, a, b, from + 1, at);
    }
}

/// What the model thinks aloud before its answer does not matter, even if it looks like
/// an answer, as long as it holds no closing mark of its own.
pub proof fn law_leading_thoughts_are_ignored(thought: Seq<char>, answer: Seq<char>)
    requires
        ({
            let s = "<think>"@ + thought + "</think>"@ + answer;
            forall|i: int|
                7 <= i < 7 + thought.len() ==> !#[trigger] text::stands_at(s, "</think>"@, i)
                    && !text::stands_at(s, "</thinking>"@, i)
        }),
    ensures
        names_in_reply("<think>"@ + thought + "</think>"@ + answer) == names_in_reply(answer),
{
    let s = "<think>"@ + thought + "</think>"@ + answer;
    reveal_strlit("<think>");
    reveal_strlit("</think>");
    assert(s.subrange(0, 7) =~= "<think>"@);
    assert(text::stands_at(s, "<think>"@, 0));
    let at = 7 + thought.len() as int;
    assert(s.subrange(at, at + 8) =~= "</think>"@);
    assert(text::stands_at(s, "</think>"@, at));
    lemma_skip_to_mark(s, "</think>"@, "</thinking>"@, 7, at);
    assert(next_block(s, 0) == Some((0int, at + 8)));
    lemma_shift_unthought(s, at + 8, 0);
    assert(s.skip(at + 8) =~= answer);
    assert(s.subrange(0, 0) =~= Seq::<char>::empty());
    assert(without_thinking(s) =~= without_thinking(answer));
}

proof fn lemma_string_end_inside(before: Seq<char>, inner: Seq<char>, after: Seq<char>, from: int)
    requires
        0 <= from <= inner.len(),
        string_end(inner, from) < inner.len(),
    ensures
        string_end(before + inner + after, before.len() + from) == before.len() + string_end(
            inner,
            from,
        ),
    decreases inner.len() - from,
{
    let s = before + inner + after;
    assert(s[before.len() + from] == inner[from]);
    if inner[from] == '"' {
    } else if inner[from] == '\\' {
        lemma_string_end_inside(before, inner, after, from + 2);
    } else {
        lemma_string_end_inside(before, inner, after, from + 1);
    }
}

proof fn lemma_brace_end_inside(
    before: Seq<char>,
    inner: Seq<char>,
    after: Seq<char>,
    from: int,
    open: nat,
)
    requires
        0 <= from <= inner.len(),
        brace_end(inner, from, open) is Some,
    ensures
        brace_end(before + inner + after, before.len() + from, open) == Some(
            before.len() + brace_end(inner, from, open)->0,
        ),
    decreases inner.len() - from,
{
    let s = before + inner + after;
    assert(s[before.len() + from] == inner[from]);
    if inner[from] == '"' {
        let end = string_end(inner, from + 1);
        lemma_string_end(inner, from + 1);
        assert(brace_end(inner, end, open) is Some);
        lemma_string_end_inside(before, inner, after, from + 1);
        lemma_brace_end_inside(before, inner, after, end, open);
    } else if inner[from] == '{' {
        lemma_brace_end_inside(before, inner, after, from + 1, open + 1);
    } else if inner[from] == '}' {
        if open > 1 {
            lemma_brace_end_inside(before, inner, after, from + 1, (open - 1) as nat);
        }
    } else {
        lemma_brace_end_inside(before, inner, after, from + 1, open);
    }
}

proof fn lemma_object_from(s: Seq<char>, from: int, at: int)
    requires
        0 <= from <= at < s.len(),
        is_object(braced(s, at)),
        forall|i: int| from <= i < at ==> !is_object(#[trigger] braced(s, i)),
    ensures
        object_from(s, from) == braced(s, at),
    decreases at - from,
{
    if from < at {
        assert(!is_object(braced(s, from)));
        lemma_object_from(s, from + 1, at);
    }
}

/// The first JSON object of a reply is the one that counts, whatever prose, fences or further
/// objects stand around it.
pub proof fn law_first_object_is_read(
    reply: Seq<char>,
    before: Seq<char>,
    object: Seq<char>,
    after: Seq<char>,
)
    requires
        without_thinking(reply) == before + object + after,
        braced(object, 0) == Some(object),
        json_members(object) is Some,
        forall|i: int|
            0 <= i < before.len() ==> !is_object(#[trigger] braced(before + object + after, i)),
    ensures
        names_in_reply(reply) == names_in_object(object),
{
    let s = before + object + after;
    let at = before.len() as int;
    lemma_brace_end(object, 1, 1);
    let end = brace_end(object, 1, 1)->0;
    assert(object.subrange(0, end) == object);
    assert(object.subrange(0, end).len() == end);
    lemma_brace_end_inside(before, object, after, 1, 1);
    assert(s[at] == object[0]);
    assert(s.subrange(at, at + end) =~= object);
    lemma_object_from(s, 0, at);
}

/// What follows the object at a reply's beginning, a second object for instance, changes nothing.
pub proof fn law_later_objects_do_not_matter(
    reply: Seq<char>,
    object: Seq<char>,
    after: Seq<char>,
)
    requires
        without_thinking(reply) == object + after,
        braced(object, 0) == Some(object),
        json_members(object) is Some,
    ensures
        names_in_reply(reply) == names_in_object(object),
{
    assert(Seq::<char>::empty() + object + after =~= object + after);
    law_first_object_is_read(reply, Seq::empty(), object, after);
}

/// A list inside of braces that hold no JSON object is not mistaken for a list of tags.
pub proof fn law_lists_inside_braces_are_not_read(reply: Seq<char>)
    requires
        first_object(without_thinking(reply)) is None,
        inside_braces(without_thinking(reply), first_index(without_thinking(reply), '[')),
    ensures
        names_in_reply(reply) is None,
{
}

/// A reply with an empty list of names is a valid answer: it picks no tag, which takes all
/// tags away.
pub proof fn law_empty_list_picks_nothing(reply: Seq<char>, tags: Seq<TagModel>)
    requires
        names_in_reply(reply) == Some(Seq::<Seq<char>>::empty()),
    ensures
        reply_ids(reply, tags) == Seq::<Seq<char>>::empty(),
{
    assert(name_keys(Seq::<Seq<char>>::empty()) =~= Seq::<Seq<char>>::empty());
}

proof fn lemma_tags_named(names: Seq<Seq<char>>)
    ensures
        tags_named(names) >= 1 <==> exists|a: int|
            0 <= a < names.len() && is_tags_name(#[trigger] names[a]),
        tags_named(names) >= 2 <==> exists|a: int, b: int|
            0 <= a < b < names.len() && is_tags_name(#[trigger] names[a]) && is_tags_name(
                #[trigger] names[b],
            ),
    decreases names.len(),
{
    if names.len() > 0 {
        let head = names.drop_last();
        let last = names.len() - 1;
        lemma_tags_named(head);
        if tags_named(names) >= 1 {
            if is_tags_name(names[last]) {
            } else {
                let a = choose|a: int| 0 <= a < head.len() && is_tags_name(#[trigger] head[a]);
                assert(is_tags_name(names[a]));
            }
        }
        if exists|a: int| 0 <= a < names.len() && is_tags_name(#[trigger] names[a]) {
            let a = choose|a: int| 0 <= a < names.len() && is_tags_name(#[trigger] names[a]);
            if a < last {
                assert(is_tags_name(head[a]));
            }
        }
        if tags_named(names) >= 2 {
            if is_tags_name(names[last]) {
                let a = choose|a: int| 0 <= a < head.len() && is_tags_name(#[trigger] head[a]);
                assert(is_tags_name(names[a]) && is_tags_name(names[last]));
            } else {
                let (a, b) = choose|a: int, b: int|
                    0 <= a < b < head.len() && is_tags_name(#[trigger] head[a]) && is_tags_name(
                        #[trigger] head[b],
                    );
                assert(is_tags_name(names[a]) && is_tags_name(names[b]));
            }
        }
        if exists|a: int, b: int|
            0 <= a < b < names.len() && is_tags_name(#[trigger] names[a]) && is_tags_name(
                #[trigger] names[b],
            ) {
            let (a, b) = choose|a: int, b: int|
                0 <= a < b < names.len() && is_tags_name(#[trigger] names[a]) && is_tags_name(
                    #[trigger] names[b],
                );
            assert(is_tags_name(head[a]));
            if b < last {
                assert(is_tags_name(head[b]));
            }
        }
    }
}

proof fn lemma_value_of(members: Seq<(Seq<char>, Seq<char>)>, name: Seq<char>, i: int)
    requires
        0 <= i < members.len(),
        members[i].0 == name,
        forall|j: int| 0 <= j < i ==> (#[trigger] members[j]).0 != name,
    ensures
        value_of(members, name) == Some(members[i].1),
    decreases i,
{
    if i > 0 {
        assert(members[0].0 != name);
        let rest = members.skip(1);
        assert(rest[i - 1] == members[i]);
        assert forall|j: int| 0 <= j < i - 1 implies (#[trigger] rest[j]).0 != name by {
            assert(rest[j] == members[j + 1]);
        }
        lemma_value_of(rest, name, i - 1);
    }
}

proof fn lemma_no_value(members: Seq<(Seq<char>, Seq<char>)>, name: Seq<char>)
    requires
        forall|j: int| 0 <= j < members.len() ==> (#[trigger] members[j]).0 != name,
    ensures
        value_of(members, name) is None,
    decreases members.len(),
{
    if members.len() > 0 {
        assert(members[0].0 != name);
        let rest = members.skip(1);
        assert forall|j: int| 0 <= j < rest.len() implies (#[trigger] rest[j]).0 != name by {
            assert(rest[j] == members[j + 1]);
        }
        lemma_no_value(rest, name);
    }
}

/// The names that are read are all strings of the list under `tags` in the reply's first
/// object, as many and in the same order, if `tags` is given once.
pub proof fn law_every_name_of_the_list_is_read(
    reply: Seq<char>,
    object: Seq<char>,
    members: Seq<(Seq<char>, Seq<char>)>,
    i: int,
    names: Seq<Seq<char>>,
)
    requires
        first_object(without_thinking(reply)) == Some(object),
        json_members(object) == Some(members),
        0 <= i < members.len(),
        members[i].0 == "tags"@,
        forall|j: int| 0 <= j < i ==> (#[trigger] members[j]).0 != "tags"@,
        json_strings(members[i].1) == Some(names),
        forall|a: int, b: int|
            0 <= a < b < names_from(object, 0, 0, false).len() ==> json_strings(
                "["@ + #[trigger] names_from(object, 0, 0, false)[a] + "]"@,
            ) != Some(seq!["tags"@]) || json_strings(
                "["@ + #[trigger] names_from(object, 0, 0, false)[b] + "]"@,
            ) != Some(seq!["tags"@]),
    ensures
        names_in_reply(reply) == Some(names),
{
    lemma_tags_named(names_from(object, 0, 0, false));
    lemma_value_of(members, "tags"@, i);
}

/// An object that gives `tags` twice says nothing clear, however the two names are written.
pub proof fn law_tags_given_twice_are_not_read(
    reply: Seq<char>,
    object: Seq<char>,
    a: int,
    b: int,
)
    requires
        first_object(without_thinking(reply)) == Some(object),
        0 <= a < b < names_from(object, 0, 0, false).len(),
        json_strings("["@ + names_from(object, 0, 0, false)[a] + "]"@) == Some(seq!["tags"@]),
        json_strings("["@ + names_from(object, 0, 0, false)[b] + "]"@) == Some(seq!["tags"@]),
    ensures
        names_in_reply(reply) is None,
{
    lemma_tags_named(names_from(object, 0, 0, false));
    assert(is_tags_name(names_from(object, 0, 0, false)[a]));
    assert(is_tags_name(names_from(object, 0, 0, false)[b]));
}

/// An object without `tags`, or with something else under it than a list of strings, is not
/// read, whatever lists stand elsewhere in the reply.
pub proof fn law_other_shapes_are_not_read(
    reply: Seq<char>,
    object: Seq<char>,
    members: Seq<(Seq<char>, Seq<char>)>,
)
    requires
        first_object(without_thinking(reply)) == Some(object),
        json_members(object) == Some(members),
        forall|j: int|
            0 <= j < members.len() ==> (#[trigger] members[j]).0 != "tags"@ || json_strings(
                members[j].1,
            ) is None,
    ensures
        names_in_reply(reply) is None,
{
    if exists|j: int| 0 <= j < members.len() && (#[trigger] members[j]).0 == "tags"@ {
        let j = choose|j: int| 0 <= j < members.len() && (#[trigger] members[j]).0 == "tags"@;
        lemma_some_value(members, "tags"@, j);
    } else {
        lemma_no_value(members, "tags"@);
    }
}

proof fn lemma_some_value(members: Seq<(Seq<char>, Seq<char>)>, name: Seq<char>, j: int)
    requires
        0 <= j < members.len(),
        members[j].0 == name,
    ensures
        exists|i: int|
            0 <= i < members.len() && (#[trigger] members[i]).0 == name && value_of(members, name)
                == Some(members[i].1),
    decreases j,
{
    if members[0].0 == name {
        assert(value_of(members, name) == Some(members[0].1));
    } else {
        let rest = members.skip(1);
        assert(rest[j - 1] == members[j]);
        lemma_some_value(rest, name, j - 1);
        let i = choose|i: int|
            0 <= i < rest.len() && (#[trigger] rest[i]).0 == name && value_of(rest, name) == Some(
                rest[i].1,
            );
        assert(members[i + 1] == rest[i]);
    }
}

/// A list with any text around it is read whole, where the reply has no braces at all.
pub proof fn law_bare_lists_are_read(
    reply: Seq<char>,
    before: Seq<char>,
    inside: Seq<char>,
    after: Seq<char>,
)
    requires
        without_thinking(reply) == before + "["@ + inside + "]"@ + after,
        !without_thinking(reply).contains('{'),
        !before.contains('['),
        !after.contains(']'),
    ensures
        names_in_reply(reply) == json_strings("["@ + inside + "]"@),
{
    let s = before + "["@ + inside + "]"@ + after;
    reveal_strlit("[");
    reveal_strlit("]");
    let start = before.len() as int;
    let end = (before.len() + 1 + inside.len()) as int;
    assert forall|i: int| 0 <= i < start implies #[trigger] s[i] != '[' by {
        assert(s[i] == before[i]);
    }
    lemma_first_index(s, '[', start);
    assert forall|i: int| end + 1 <= i < s.len() implies #[trigger] s[i] != ']' by {
        assert(s[i] == after[i - end - 1]);
    }
    assert(s[end] == ']');
    lemma_last_index(s, ']', end + 1);
    assert(s.subrange(start, end + 1) =~= "["@ + inside + "]"@);
    assert forall|i: int| (#[trigger] braced(s, i)) is None by {
        if 0 <= i < s.len() {
            assert(s[i] != '{');
        }
    }
    lemma_no_object(s, 0);
    assert(!inside_braces(s, start));
}

proof fn lemma_no_object(s: Seq<char>, from: int)
    requires
        forall|i: int| (#[trigger] braced(s, i)) is None,
    ensures
        object_from(s, from) is None,
    decreases s.len() - from,
{
    if 0 <= from < s.len() {
        assert(braced(s, from) is None);
        lemma_no_object(s, from + 1);
    }
}

/// Names are compared without white space around them and in lower case: a tag of that name
/// is picked, and of several such tags the first.
pub proof fn law_named_tags_are_picked(
    names: Seq<Seq<char>>,
    tags: Seq<TagModel>,
    i: int,
    k: int,
)
    requires
        0 <= i < names.len(),
        0 <= k < tags.len(),
        text::lower_case(text::trimmed(names[i])) == text::lower_case(
            text::trimmed(tags[k].name@),
        ),
        forall|j: int|
            0 <= j < k ==> text::lower_case(text::trimmed((#[trigger] tags[j]).name@))
                != text::lower_case(text::trimmed(names[i])),
    ensures
        picked_ids(name_keys(names), name_keys(tag_names(tags)), tag_ids(tags)).contains(
            tags[k].id@,
        ),
{
    let wanted = name_keys(names);
    let keys = name_keys(tag_names(tags));
    assert forall|j: int| 0 <= j < tags.len() implies #[trigger] keys[j] == text::lower_case(
        text::trimmed(tags[j].name@),
    ) by {
        assert(tag_names(tags)[j] == tags[j].name@);
    }
    assert(wanted[i] == keys[k]);
    assert(keys.contains(wanted[i]));
    lemma_first_position(keys, wanted[i], k);
    law_known_names_are_picked(wanted, keys, tag_ids(tags), i);
    assert(tag_ids(tags)[k] == tags[k].id@);
}

/// Nothing else is picked: behind every picked id stands a name of the reply and the first tag
/// of that name.
pub proof fn law_only_named_tags_are_picked(names: Seq<Seq<char>>, tags: Seq<TagModel>, id: Seq<char>)
    requires
        picked_ids(name_keys(names), name_keys(tag_names(tags)), tag_ids(tags)).contains(id),
    ensures
        exists|i: int, k: int|
            0 <= i < names.len() && 0 <= k < tags.len() && (#[trigger] tags[k]).id@ == id
                && text::lower_case(text::trimmed(#[trigger] names[i])) == text::lower_case(
                text::trimmed(tags[k].name@),
            ),
    decreases names.len(),
{
    let wanted = name_keys(names);
    let keys = name_keys(tag_names(tags));
    let ids = tag_ids(tags);
    let all = picked_ids(wanted, keys, ids);
    if names.len() > 0 {
        let head = names.drop_last();
        assert(name_keys(head) =~= wanted.drop_last());
        let before = picked_ids(name_keys(head), keys, ids);
        if before.contains(id) {
            law_only_named_tags_are_picked(head, tags, id);
            let (i, k) = choose|i: int, k: int|
                0 <= i < head.len() && 0 <= k < tags.len() && (#[trigger] tags[k]).id@ == id
                    && text::lower_case(text::trimmed(#[trigger] head[i])) == text::lower_case(
                    text::trimmed(tags[k].name@),
                );
            assert(names[i] == head[i]);
        } else {
            let at = first_position(keys, wanted.last());
            lemma_contains_position(keys, wanted.last());
            let x = choose|x: int| 0 <= x < all.len() && all[x] == id;
            assert(all == before.push(ids[at]));
            if x < before.len() {
                assert(before[x] == id);
            }
            assert(ids[at] == id);
            lemma_position_is_it(keys, wanted.last());
            let last = names.len() - 1;
            assert(tag_names(tags)[at] == tags[at].name@);
            assert(keys[at] == wanted[last]);
            assert(tags[at].id@ == id && names[last] == names.last());
        }
    } else {
        assert(all =~= Seq::<Seq<char>>::empty());
        assert(false);
    }
}

proof fn lemma_position_is_it(list: Seq<Seq<char>>, wanted: Seq<char>)
    ensures
        first_position(list, wanted) < list.len() ==> list[first_position(list, wanted)] == wanted,
    decreases list.len(),
{
    if list.len() > 0 && list[0] != wanted {
        lemma_position_is_it(list.skip(1), wanted);
        lemma_contains_position(list.skip(1), wanted);
    }
}

/// Ids come in the order of the names: what the first names pick comes first, whatever names
/// follow.
pub proof fn law_picks_follow_the_names(
    wanted: Seq<Seq<char>>,
    keys: Seq<Seq<char>>,
    ids: Seq<Seq<char>>,
    n: int,
)
    requires
        0 <= n <= wanted.len(),
    ensures
        picked_ids(wanted.take(n), keys, ids).is_prefix_of(picked_ids(wanted, keys, ids)),
    decreases wanted.len() - n,
{
    let part = picked_ids(wanted.take(n), keys, ids);
    let all = picked_ids(wanted, keys, ids);
    if n == wanted.len() {
        assert(wanted.take(n) =~= wanted);
        assert(part =~= all.subrange(0, part.len() as int));
    } else {
        law_picks_follow_the_names(wanted, keys, ids, n + 1);
        let more = picked_ids(wanted.take(n + 1), keys, ids);
        assert(wanted.take(n + 1).drop_last() =~= wanted.take(n));
        assert(part =~= more.subrange(0, part.len() as int));
        assert(part =~= all.subrange(0, part.len() as int));
    }
}

/// From a reply to its tags: every tag that the reply names is among the ids that take the
/// place of the meeting's tags, each once, and the reply is then accepted.
pub proof fn law_named_tags_replace_the_old_ones(
    reply: Seq<char>,
    names: Seq<Seq<char>>,
    tags: Seq<TagModel>,
    i: int,
    k: int,
)
    requires
        names_in_reply(reply) == Some(names),
        0 <= i < names.len(),
        0 <= k < tags.len(),
        text::lower_case(text::trimmed(names[i])) == text::lower_case(
            text::trimmed(tags[k].name@),
        ),
        forall|j: int|
            0 <= j < k ==> text::lower_case(text::trimmed((#[trigger] tags[j]).name@))
                != text::lower_case(text::trimmed(names[i])),
    ensures
        verdict(reply, names_in_reply(reply), reply_ids(reply, tags)) is Ok,
        verdict(reply, names_in_reply(reply), reply_ids(reply, tags))->Ok_0.contains(tags[k].id@),
        verdict(reply, names_in_reply(reply), reply_ids(reply, tags))->Ok_0.no_duplicates(),
{
    law_named_tags_are_picked(names, tags, i, k);
    law_only_existing_tags_once(
        name_keys(names),
        name_keys(tag_names(tags)),
        tag_ids(tags),
    );
}

/// A reply that cannot be read, or that names no existing tag, changes nothing, and the error
/// shows what came back.
pub proof fn law_bad_replies_wipe_nothing(
    reply: Seq<char>,
    names: Option<Seq<Seq<char>>>,
    ids: Seq<Seq<char>>,
)
    ensures
        names is None ==> (verdict(reply, names, ids) matches Err(e) && text::has(
            e,
            text::trimmed(reply),
        )),
        names is Some && names->0.len() > 0 && ids.len() == 0 ==> (verdict(reply, names, ids)
            matches Err(e) && forall|i: int|
            0 <= i < names->0.len() ==> text::has(e, #[trigger] names->0[i])),
        names is Some && (names->0.len() == 0 || ids.len() > 0) ==> verdict(reply, names, ids)
            == Ok::<Seq<Seq<char>>, Seq<char>>(ids),
{
    match names {
        None => {
            let head = "could not read tags from the LLM reply: "@;
            assert(head + text::trimmed(reply) =~= head + text::trimmed(reply) + Seq::empty());
            text::law_pieces_stand_in_the_whole(head, text::trimmed(reply), Seq::empty());
        },
        Some(list) => {
            let head = "the LLM picked no existing tag (reply: "@;
            assert forall|i: int| 0 <= i < list.len() implies text::has(
                head + text::join(list, ", "@) + ")"@,
                #[trigger] list[i],
            ) by {
                text::law_joined_parts_keep_their_place(list, ", "@, i);
                lemma_has_in(head, text::join(list, ", "@), ")"@, list[i]);
            }
        },
    }
}

proof fn lemma_has_in(before: Seq<char>, s: Seq<char>, after: Seq<char>, piece: Seq<char>)
    requires
        text::has(s, piece),
    ensures
        text::has(before + s + after, piece),
{
    let at = choose|at: int| #[trigger] text::stands_at(s, piece, at);
    let whole = before + s + after;
    let there = before.len() + at;
    assert(whole.subrange(there, there + piece.len()) =~= s.subrange(at, at + piece.len()));
    assert(text::stands_at(whole, piece, there));
}

proof fn lemma_marks_differ(s: Seq<char>, at: int)
    ensures
        !(text::stands_at(s, "<think>"@, at) && text::stands_at(s, "<thinking>"@, at)),
        !(text::stands_at(s, "</think>"@, at) && text::stands_at(s, "</thinking>"@, at)),
{
    reveal_strlit("<think>");
    reveal_strlit("<thinking>");
    reveal_strlit("</think>");
    reveal_strlit("</thinking>");
    text::law_standing_is_equality(s, "<think>"@, at);
    text::law_standing_is_equality(s, "<thinking>"@, at);
    text::law_standing_is_equality(s, "</think>"@, at);
    text::law_standing_is_equality(s, "</thinking>"@, at);
    if text::stands_at(s, "<think>"@, at) && text::stands_at(s, "<thinking>"@, at) {
        assert(s[at + 6] == "<think>"@[6]);
        assert(s[at + 6] == "<thinking>"@[6]);
    }
    if text::stands_at(s, "</think>"@, at) && text::stands_at(s, "</thinking>"@, at) {
        assert(s[at + 7] == "</think>"@[7]);
        assert(s[at + 7] == "</thinking>"@[7]);
    }
}

proof fn lemma_find_mark(s: Seq<char>, a: Seq<char>, b: Seq<char>, from: int, at: int, m: Seq<char>)
    requires
        0 <= from <= at <= s.len(),
        m == a || m == b,
        text::stands_at(s, m, at),
        !(text::stands_at(s, a, at) && text::stands_at(s, b, at)),
        forall|i: int|
            from <= i < at ==> !#[trigger] text::stands_at(s, a, i) && !text::stands_at(s, b, i),
    ensures
        next_mark(s, a, b, from) == Some((at, m.len() as int)),
    decreases at - from,
{
    if from < at {
        assert(!text::stands_at(s, a, from));
        lemma_find_mark(s, a, b, from + 1, at, m);
    }
}

proof fn lemma_no_mark(s: Seq<char>, a: Seq<char>, b: Seq<char>, from: int)
    requires
        forall|i: int|
            from <= i <= s.len() ==> !#[trigger] text::stands_at(s, a, i) && !text::stands_at(
                s,
                b,
                i,
            ),
    ensures
        next_mark(s, a, b, from) is None,
    decreases s.len() - from + 1,
{
    if from <= s.len() {
        assert(!text::stands_at(s, a, from));
        lemma_no_mark(s, a, b, from + 1);
    }
}

/// A thinking block goes from its opening mark to the next closing mark, whichever of the two
/// forms either has. What stands before it stays, and the rest is treated alike.
pub proof fn law_thoughts_are_cut_out(
    s: Seq<char>,
    start: int,
    opening: Seq<char>,
    end: int,
    closing: Seq<char>,
)
    requires
        opening == "<think>"@ || opening == "<thinking>"@,
        closing == "</think>"@ || closing == "</thinking>"@,
        text::stands_at(s, opening, start),
        forall|i: int|
            0 <= i < start ==> !#[trigger] text::stands_at(s, "<think>"@, i) && !text::stands_at(
                s,
                "<thinking>"@,
                i,
            ),
        start + opening.len() <= end,
        text::stands_at(s, closing, end),
        forall|i: int|
            start + opening.len() <= i < end ==> !#[trigger] text::stands_at(s, "</think>"@, i)
                && !text::stands_at(s, "</thinking>"@, i),
    ensures
        without_thinking(s) == s.take(start) + without_thinking(s.skip(end + closing.len())),
{
    lemma_marks_differ(s, start);
    lemma_marks_differ(s, end);
    lemma_find_mark(s, "<think>"@, "<thinking>"@, 0, start, opening);
    lemma_find_mark(s, "</think>"@, "</thinking>"@, start + opening.len(), end, closing);
    let after = end + closing.len();
    lemma_block_bounds(s, 0);
    assert(next_block(s, 0) == Some((start, after)));
    lemma_shift_unthought(s, after, 0);
    assert(s.subrange(0, start) =~= s.take(start));
}

/// A reply without an opening mark is kept as it is, and so is one whose first block is never
/// closed.
pub proof fn law_text_without_thoughts_is_kept(s: Seq<char>, start: int)
    requires
        0 <= start <= s.len(),
        forall|i: int|
            0 <= i < start ==> !#[trigger] text::stands_at(s, "<think>"@, i) && !text::stands_at(
                s,
                "<thinking>"@,
                i,
            ),
        forall|i: int|
            #![trigger text::stands_at(s, "</think>"@, i)]
            #![trigger text::stands_at(s, "</thinking>"@, i)]
            start <= i <= s.len() ==> !text::stands_at(s, "</think>"@, i) && !text::stands_at(
                s,
                "</thinking>"@,
                i,
            ),
    ensures
        without_thinking(s) == s,
{
    assert(s.skip(0) =~= s);
    lemma_mark_bounds(s, "<think>"@, "<thinking>"@, 0);
    match next_mark(s, "<think>"@, "<thinking>"@, 0) {
        Some((at, len)) => {
            lemma_mark_stands(s, "<think>"@, "<thinking>"@, 0);
            assert(at >= start) by {
                if at < start {
                    assert(!text::stands_at(s, "<think>"@, at));
                }
            }
            let end = at + len;
            assert(end >= start);
            lemma_no_mark(s, "</think>"@, "</thinking>"@, end);
        },
        None => {},
    }
}

proof fn lemma_mark_stands(s: Seq<char>, a: Seq<char>, b: Seq<char>, from: int)
    ensures
        match next_mark(s, a, b, from) {
            Some((at, _)) => text::stands_at(s, a, at) || text::stands_at(s, b, at),
            None => true,
        },
    decreases s.len() - from + 1,
{
    if from <= s.len() && !text::stands_at(s, a, from) && !text::stands_at(s, b, from) {
        lemma_mark_stands(s, a, b, from + 1);
    }
}

proof fn lemma_words_of_two(a: Seq<char>, w: char, b: Seq<char>)
    requires
        text::is_white_space(w),
    ensures
        words(a + seq![w] + b) == words(a) + words(b),
    decreases a.len(),
{
    let s = a + seq![w] + b;
    lemma_word_len_bound(a);
    lemma_word_is_solid(a);
    let n = word_len(a) as int;
    assert forall|i: int| 0 <= i < n implies !text::is_white_space(#[trigger] s[i]) by {
        assert(s[i] == a[i]);
    }
    if n == a.len() {
        assert(s[n] == w);
    } else {
        assert(s[n] == a[n]);
    }
    lemma_word_len(s, n);
    if a.len() == 0 {
        assert(s.skip(1) =~= b);
        assert(words(a) + words(b) =~= words(b));
    } else if n > 0 {
        let rest = a.skip(n);
        lemma_words_of_two(rest, w, b);
        assert(s.skip(n) =~= rest + seq![w] + b);
        assert(s.take(n) =~= a.take(n));
        assert(words(s) =~= words(a) + words(b));
    } else {
        let rest = a.skip(1);
        lemma_words_of_two(rest, w, b);
        assert(s.skip(1) =~= rest + seq![w] + b);
    }
}

proof fn lemma_word_len_bound(s: Seq<char>)
    ensures
        word_len(s) <= s.len(),
        word_len(s) < s.len() ==> text::is_white_space(s[word_len(s) as int]),
    decreases s.len(),
{
    if s.len() > 0 && !text::is_white_space(s[0]) {
        lemma_word_len_bound(s.skip(1));
    }
}

proof fn lemma_join_of_two(a: Seq<Seq<char>>, b: Seq<Seq<char>>, sep: Seq<char>)
    requires
        a.len() > 0,
        b.len() > 0,
    ensures
        text::join(a + b, sep) == text::join(a, sep) + sep + text::join(b, sep),
{
    let n = a.len() - 1;
    let all = a + b;
    text::law_joined_parts_keep_their_place(all, sep, n);
    text::law_joined_parts_keep_their_place(a, sep, n);
    assert(all.take(n) =~= a.take(n));
    assert(all[n] == a[n]);
    assert(all.skip(n + 1) =~= b);
    assert(text::join(all, sep) =~= text::join(a, sep) + sep + text::join(b, sep));
}

/// Bringing a text to one line keeps its words as they are and puts one space between each
/// two: a word alone is kept, white space alone vanishes, and two pieces with white space
/// between them come out with a single space between them.
pub proof fn law_one_line_keeps_the_words(a: Seq<char>, w: char, b: Seq<char>)
    requires
        text::is_white_space(w),
    ensures
        a.len() > 0 && (forall|i: int| 0 <= i < a.len() ==> !text::is_white_space(#[trigger] a[i]))
            ==> on_one_line(a) == a,
        (forall|i: int| 0 <= i < a.len() ==> text::is_white_space(#[trigger] a[i]))
            ==> on_one_line(a).len() == 0 && on_one_line(a + seq![w] + b) == on_one_line(b)
            && on_one_line(b + seq![w] + a) == on_one_line(b),
        on_one_line(a).len() > 0 && on_one_line(b).len() > 0 ==> on_one_line(a + seq![w] + b)
            == on_one_line(a) + seq![' '] + on_one_line(b),
{
    reveal_strlit(" ");
    assert(" "@ =~= seq![' ']);
    lemma_words_of_two(a, w, b);
    lemma_words_of_two(b, w, a);
    if a.len() > 0 && forall|i: int|
        0 <= i < a.len() ==> !text::is_white_space(#[trigger] a[i]) {
        lemma_word_len(a, a.len() as int);
        assert(a.take(a.len() as int) =~= a);
        assert(a.skip(a.len() as int) =~= Seq::<char>::empty());
        assert(words(a.skip(a.len() as int)) =~= Seq::<Seq<char>>::empty());
        assert(words(a) =~= seq![a]);
    }
    if forall|i: int| 0 <= i < a.len() ==> text::is_white_space(#[trigger] a[i]) {
        lemma_blank_has_no_words(a);
        assert(words(a) + words(b) =~= words(b));
        assert(words(b) + words(a) =~= words(b));
    }
    if words(a).len() > 0 && words(b).len() > 0 {
        lemma_join_of_two(words(a), words(b), " "@);
    }
}

proof fn lemma_blank_has_no_words(s: Seq<char>)
    requires
        forall|i: int| 0 <= i < s.len() ==> text::is_white_space(#[trigger] s[i]),
    ensures
        words(s) == Seq::<Seq<char>>::empty(),
    decreases s.len(),
{
    if s.len() > 0 {
        assert(text::is_white_space(s[0]));
        let t = s.skip(1);
        assert forall|i: int| 0 <= i < t.len() implies text::is_white_space(#[trigger] t[i]) by {
            assert(t[i] == s[i + 1]);
        }
        lemma_blank_has_no_words(t);
    }
}

proof fn lemma_line_in_prompt(tags: Seq<TagModel>, k: int, piece: Seq<char>)
    requires
        0 <= k < tags.len(),
        text::has(tag_line(tags[k]), piece),
    ensures
        text::has(system_prompt(tags), piece),
{
    let lines = tags.map_values(|t: TagModel| tag_line(t));
    let list = text::join(lines, "\n"@);
    text::law_joined_parts_keep_their_place(lines, "\n"@, k);
    assert(lines[k] == tag_line(tags[k]));
    let before = if k > 0 {
        text::join(lines.take(k), "\n"@) + "\n"@
    } else {
        Seq::<char>::empty()
    };
    let after = if k + 1 < lines.len() {
        "\n"@ + text::join(lines.skip(k + 1), "\n"@)
    } else {
        Seq::<char>::empty()
    };
    lemma_has_in(before, tag_line(tags[k]), after, piece);
    lemma_has_in(PROMPT_HEAD@, list, PROMPT_TAIL@, piece);
}

proof fn lemma_line_on_its_own(tags: Seq<TagModel>, k: int)
    requires
        0 < k < tags.len(),
    ensures
        text::has(system_prompt(tags), "\n"@ + tag_line(tags[k])),
{
    let lines = tags.map_values(|t: TagModel| tag_line(t));
    let list = text::join(lines, "\n"@);
    text::law_joined_parts_keep_their_place(lines, "\n"@, k);
    assert(lines[k] == tag_line(tags[k]));
    let front = text::join(lines.take(k), "\n"@);
    let after = if k + 1 < lines.len() {
        "\n"@ + text::join(lines.skip(k + 1), "\n"@)
    } else {
        Seq::<char>::empty()
    };
    let piece = "\n"@ + tag_line(tags[k]);
    assert(list =~= front + piece + after);
    text::law_pieces_stand_in_the_whole(front, piece, after);
    lemma_has_in(PROMPT_HEAD@, list, PROMPT_TAIL@, piece);
}

proof fn lemma_has_within(s: Seq<char>, piece: Seq<char>, part: Seq<char>)
    requires
        text::has(s, piece),
        text::has(piece, part),
    ensures
        text::has(s, part),
{
    let at = choose|at: int| #[trigger] text::stands_at(s, piece, at);
    let before = s.take(at);
    let after = s.skip(at + piece.len());
    assert(s =~= before + piece + after);
    lemma_has_in(before, piece, after, part);
}

/// The model is told of every tag: its name stands in the instructions on a line of its own,
/// with its description behind it if that has any text.
pub proof fn law_every_tag_stands_in_the_instructions(tags: Seq<TagModel>, k: int)
    requires
        0 <= k < tags.len(),
    ensures
        text::has(system_prompt(tags), "- "@ + on_one_line(tags[k].name@)),
        tags[k].description is Some && on_one_line(tags[k].description->0@).len() > 0
            ==> text::has(
            system_prompt(tags),
            "- "@ + on_one_line(tags[k].name@) + ": "@ + on_one_line(tags[k].description->0@),
        ),
        k > 0 ==> text::has(system_prompt(tags), "\n"@ + ("- "@ + on_one_line(tags[k].name@))),
{
    let name = "- "@ + on_one_line(tags[k].name@);
    let line = tag_line(tags[k]);
    let rest = line.skip(name.len() as int);
    assert(line =~= Seq::empty() + name + rest);
    text::law_pieces_stand_in_the_whole(Seq::empty(), name, rest);
    lemma_line_in_prompt(tags, k, name);
    assert(line =~= Seq::empty() + line + Seq::empty());
    text::law_pieces_stand_in_the_whole(Seq::empty(), line, Seq::empty());
    lemma_line_in_prompt(tags, k, line);
    if k > 0 {
        lemma_line_on_its_own(tags, k);
        let piece = "\n"@ + line;
        let part = "\n"@ + name;
        assert(piece =~= Seq::empty() + part + rest);
        text::law_pieces_stand_in_the_whole(Seq::empty(), part, rest);
        lemma_has_within(system_prompt(tags), piece, part);
    }
}

/// The model is asked about the meeting's title, on one line, and its whole summary, without
/// white space around it and inside the marks of a summary.
pub proof fn law_the_question_holds_title_and_summary(title: Seq<char>, summary: Seq<char>)
    ensures
        text::has(user_prompt(title, summary), on_one_line(title)),
        text::has(
            user_prompt(title, summary),
            "<summary>\n"@ + text::trimmed(summary) + "\n</summary>"@,
        ),
{
    let all = user_prompt(title, summary);
    let one = on_one_line(title);
    let rest = "\n\n<summary>\n"@ + text::trimmed(summary) + "\n</summary>"@;
    assert(all =~= "Meeting title: "@ + one + rest);
    text::law_pieces_stand_in_the_whole("Meeting title: "@, one, rest);
    reveal_strlit("\n\n<summary>\n");
    reveal_strlit("<summary>\n");
    let part = "<summary>\n"@ + text::trimmed(summary) + "\n</summary>"@;
    let front = "Meeting title: "@ + one + seq!['\n', '\n'];
    assert("\n\n<summary>\n"@ =~= seq!['\n', '\n'] + "<summary>\n"@);
    assert(all =~= front + part + Seq::empty());
    text::law_pieces_stand_in_the_whole(front, part, Seq::empty());
}

/// How often a character stands in a text.
pub open spec fn count_of(s: Seq<char>, c: char) -> nat
    decreases s.len(),
{
    if s.len() == 0 {
        0
    } else {
        count_of(s.drop_last(), c) + if s.last() == c {
            1nat
        } else {
            0
        }
    }
}

/// In a text without strings, an opening brace is closed where as many braces have been
/// closed as opened for the first time.
pub proof fn law_braces_close_where_they_balance(s: Seq<char>, end: int)
    requires
        0 < end <= s.len(),
        s[0] == '{',
        !s.take(end).contains('"'),
        count_of(s.take(end), '{') == count_of(s.take(end), '}'),
        forall|k: int|
            0 < k < end ==> count_of(#[trigger] s.take(k), '{') > count_of(s.take(k), '}'),
    ensures
        braced(s, 0) == Some(s.take(end)),
{
    assert(s.take(1).drop_last() =~= Seq::<char>::empty());
    assert(count_of(s.take(1).drop_last(), '{') == 0);
    assert(count_of(s.take(1).drop_last(), '}') == 0);
    assert(s.take(1).last() == '{');
    lemma_balance(s, end, 1);
    assert(s.subrange(0, end) =~= s.take(end));
}

proof fn lemma_balance(s: Seq<char>, end: int, from: int)
    requires
        0 < from < end <= s.len(),
        !s.take(end).contains('"'),
        count_of(s.take(end), '{') == count_of(s.take(end), '}'),
        forall|k: int|
            0 < k < end ==> count_of(#[trigger] s.take(k), '{') > count_of(s.take(k), '}'),
    ensures
        brace_end(
            s,
            from,
            (count_of(s.take(from), '{') - count_of(s.take(from), '}')) as nat,
        ) == Some(end),
    decreases end - from,
{
    let next = s.take(from + 1);
    assert(next.drop_last() =~= s.take(from));
    assert(next.last() == s[from]);
    assert(s.take(end)[from] == s[from]);
    assert(s[from] != '"') by {
        assert(s.take(end).contains(s.take(end)[from]));
    }
    assert(count_of(s.take(from), '{') > count_of(s.take(from), '}'));
    if from + 1 < end {
        assert(count_of(next, '{') > count_of(next, '}'));
        lemma_balance(s, end, from + 1);
    } else {
        assert(next =~= s.take(end));
    }
}

proof fn lemma_shift_string_end(s: Seq<char>, k: int, from: int)
    requires
        0 <= k <= s.len(),
        0 <= from,
    ensures
        string_end(s, k + from) == k + string_end(s.skip(k), from),
    decreases s.len() - k - from,
{
    let t = s.skip(k);
    if from < t.len() {
        assert(t[from] == s[k + from]);
        if s[k + from] == '\\' {
            if from + 2 <= t.len() {
                lemma_shift_string_end(s, k, from + 2);
            }
        } else if s[k + from] != '"' {
            lemma_shift_string_end(s, k, from + 1);
        }
    }
}

proof fn lemma_shift_brace_end(s: Seq<char>, k: int, from: int, open: nat)
    requires
        0 <= k <= s.len(),
        0 <= from,
    ensures
        brace_end(s, k + from, open) == match brace_end(s.skip(k), from, open) {
            Some(end) => Some(k + end),
            None => None,
        },
    decreases s.len() - k - from,
{
    let t = s.skip(k);
    if from < t.len() {
        assert(t[from] == s[k + from]);
        if t[from] == '"' {
            lemma_shift_string_end(s, k, from + 1);
            let end = string_end(t, from + 1);
            if from < end <= t.len() {
                lemma_shift_brace_end(s, k, end, open);
            }
        } else if t[from] == '{' {
            lemma_shift_brace_end(s, k, from + 1, open + 1);
        } else if t[from] == '}' {
            if open > 1 {
                lemma_shift_brace_end(s, k, from + 1, (open - 1) as nat);
            }
        } else {
            lemma_shift_brace_end(s, k, from + 1, open);
        }
    }
}

proof fn lemma_plain_string_end(s: Seq<char>, from: int, end: int)
    requires
        0 <= from <= end < s.len(),
        forall|i: int| from <= i < end ==> #[trigger] s[i] != '"' && s[i] != '\\',
        s[end] == '"',
    ensures
        string_end(s, from) == end + 1,
    decreases end - from,
{
    if from < end {
        assert(s[from] != '"');
        lemma_plain_string_end(s, from + 1, end);
    }
}

/// What stands in a string does not count as a brace: with the string taken out, the object
/// ends at the same brace. A character after a backslash does not end the string.
pub proof fn law_strings_hide_braces(start: Seq<char>, c: char, end: Seq<char>, rest: Seq<char>)
    requires
        !start.contains('"') && !start.contains('\\'),
        !end.contains('"') && !end.contains('\\'),
    ensures
        ({
            let plain = seq!['"'] + start + seq!['"'];
            let escaped = seq!['"'] + start + seq!['\\', c] + end + seq!['"'];
            let without = braced(seq!['{'] + rest, 0);
            &&& match (braced(seq!['{'] + plain + rest, 0), without) {
                (Some(a), Some(b)) => a.len() == plain.len() + b.len(),
                (None, None) => true,
                _ => false,
            }
            &&& match (braced(seq!['{'] + escaped + rest, 0), without) {
                (Some(a), Some(b)) => a.len() == escaped.len() + b.len(),
                (None, None) => true,
                _ => false,
            }
        }),
{
    let plain = seq!['"'] + start + seq!['"'];
    let escaped = seq!['"'] + start + seq!['\\', c] + end + seq!['"'];
    let bare = seq!['{'] + rest;
    lemma_shift_brace_end(bare, 1, 0, 1);
    lemma_brace_end(bare, 1, 1);
    assert(bare.skip(1) =~= rest);

    let s = seq!['{'] + plain + rest;
    let n = 2 + start.len() as int;
    assert forall|i: int| 2 <= i < n implies #[trigger] s[i] != '"' && s[i] != '\\' by {
        assert(s[i] == start[i - 2]);
    }
    assert(s[n] == '"');
    assert(s[1] == '"');
    lemma_plain_string_end(s, 2, n);
    lemma_shift_brace_end(s, n + 1, 0, 1);
    assert(s.skip(n + 1) =~= rest);
    lemma_brace_end(s, 1, 1);

    let t = seq!['{'] + escaped + rest;
    let m = n + 2 + end.len() as int;
    assert forall|i: int| 2 <= i < n implies #[trigger] t[i] != '"' && t[i] != '\\' by {
        assert(t[i] == start[i - 2]);
    }
    assert forall|i: int| n + 2 <= i < m implies #[trigger] t[i] != '"' && t[i] != '\\' by {
        assert(t[i] == end[i - n - 2]);
    }
    assert(t[n] == '\\');
    assert(t[m] == '"');
    assert(t[1] == '"');
    lemma_plain_string_end(t, n + 2, m);
    lemma_string_to(t, 2, n);
    lemma_shift_brace_end(t, m + 1, 0, 1);
    assert(t.skip(m + 1) =~= rest);
    lemma_brace_end(t, 1, 1);
}

proof fn lemma_string_to(s: Seq<char>, from: int, to: int)
    requires
        0 <= from <= to < s.len(),
        forall|i: int| from <= i < to ==> #[trigger] s[i] != '"' && s[i] != '\\',
    ensures
        string_end(s, from) == string_end(s, to),
    decreases to - from,
{
    if from < to {
        assert(s[from] != '"');
        lemma_string_to(s, from + 1, to);
    }
}

proof fn lemma_shift_names(s: Seq<char>, k: int, from: int, depth: nat, at_name: bool)
    requires
        0 <= k <= s.len(),
        0 <= from,
    ensures
        names_from(s, k + from, depth, at_name) == names_from(s.skip(k), from, depth, at_name),
    decreases s.len() - k - from,
{
    let t = s.skip(k);
    if from < t.len() {
        let c = t[from];
        assert(c == s[k + from]);
        if c == '"' {
            lemma_shift_string_end(s, k, from + 1);
            let end = string_end(t, from + 1);
            if from < end <= t.len() {
                lemma_shift_names(s, k, end, depth, false);
                assert(s.subrange(k + from, k + end) =~= t.subrange(from, end));
            }
        } else if c == '{' || c == '[' {
            lemma_shift_names(s, k, from + 1, depth + 1, depth == 0);
        } else if c == '}' || c == ']' {
            lemma_shift_names(
                s,
                k,
                from + 1,
                if depth == 0 {
                    0
                } else {
                    (depth - 1) as nat
                },
                false,
            );
        } else if c == ',' {
            lemma_shift_names(s, k, from + 1, depth, depth == 1);
        } else {
            lemma_shift_names(s, k, from + 1, depth, at_name);
        }
    }
}

proof fn lemma_names_past_value(s: Seq<char>, from: int, to: int)
    requires
        0 <= from <= to < s.len(),
        forall|i: int|
            from <= i < to ==> #[trigger] s[i] != '"' && s[i] != '{' && s[i] != '[' && s[i] != '}'
                && s[i] != ']' && s[i] != ',',
    ensures
        names_from(s, from, 1, false) == names_from(s, to, 1, false),
    decreases to - from,
{
    if from < to {
        assert(s[from] != '"');
        lemma_names_past_value(s, from + 1, to);
    }
}

/// The names of an object's members are listed in their order: the first one, and after its
/// value and the comma those of the rest.
pub proof fn law_members_are_named_in_order(name: Seq<char>, value: Seq<char>, rest: Seq<char>)
    requires
        !name.contains('"') && !name.contains('\\'),
        forall|i: int|
            0 <= i < value.len() ==> #[trigger] value[i] != '"' && value[i] != '{' && value[i]
                != '[' && value[i] != '}' && value[i] != ']' && value[i] != ',',
    ensures
        names_from(
            seq!['{'] + (seq!['"'] + name + seq!['"']) + value + seq![','] + rest,
            0,
            0,
            false,
        ) == seq![seq!['"'] + name + seq!['"']] + names_from(seq!['{'] + rest, 0, 0, false),
{
    let quoted = seq!['"'] + name + seq!['"'];
    let s = seq!['{'] + quoted + value + seq![','] + rest;
    let n = 2 + name.len() as int;
    assert forall|i: int| 2 <= i < n implies #[trigger] s[i] != '"' && s[i] != '\\' by {
        assert(s[i] == name[i - 2]);
    }
    assert(s[n] == '"');
    assert(s[1] == '"');
    assert(s[0] == '{');
    lemma_plain_string_end(s, 2, n);
    assert(s.subrange(1, n + 1) =~= quoted);
    let comma = n + 1 + value.len() as int;
    assert forall|i: int| n + 1 <= i < comma implies #[trigger] s[i] != '"' && s[i] != '{' && s[i]
        != '[' && s[i] != '}' && s[i] != ']' && s[i] != ',' by {
        assert(s[i] == value[i - n - 1]);
    }
    assert(s[comma] == ',');
    lemma_names_past_value(s, n + 1, comma);
    lemma_shift_names(s, comma + 1, 0, 1, true);
    assert(s.skip(comma + 1) =~= rest);
    let bare = seq!['{'] + rest;
    lemma_shift_names(bare, 1, 0, 1, true);
    assert(bare.skip(1) =~= rest);
    assert(names_from(s, 1, 1, true) == seq![quoted] + names_from(s, n + 1, 1, false));
}

/// The value of a name is that of its first member, wherever it stands, and there is one if
/// and only if some member has the name.
pub proof fn law_first_members_count(
    some: Seq<(Seq<char>, Seq<char>)>,
    more: Seq<(Seq<char>, Seq<char>)>,
    name: Seq<char>,
)
    ensures
        value_of(some + more, name) == (if value_of(some, name) is Some {
            value_of(some, name)
        } else {
            value_of(more, name)
        }),
        some.len() > 0 && some[0].0 == name ==> value_of(some, name) == Some(some[0].1),
        value_of(some, name) is Some <==> exists|k: int|
            0 <= k < some.len() && (#[trigger] some[k]).0 == name,
    decreases some.len(),
{
    if some.len() > 0 {
        let rest = some.skip(1);
        law_first_members_count(rest, more, name);
        assert((some + more).skip(1) =~= rest + more);
        assert((some + more)[0] == some[0]);
        if some[0].0 != name {
            if value_of(some, name) is Some {
                let k = choose|k: int| 0 <= k < rest.len() && (#[trigger] rest[k]).0 == name;
                assert(some[k + 1].0 == name);
            }
            if exists|k: int| 0 <= k < some.len() && (#[trigger] some[k]).0 == name {
                let k = choose|k: int| 0 <= k < some.len() && (#[trigger] some[k]).0 == name;
                assert(rest[k - 1] == some[k]);
            }
        }
    } else {
        assert(some + more =~= more);
    }
}

/// Members named `tags` are counted one by one, wherever they stand.
pub proof fn law_tags_members_are_counted(some: Seq<Seq<char>>, more: Seq<Seq<char>>)
    ensures
        tags_named(some + more) == tags_named(some) + tags_named(more),
        some.len() == 1 ==> tags_named(some) == (if json_strings("["@ + some[0] + "]"@) == Some(
            seq!["tags"@],
        ) {
            1nat
        } else {
            0
        }),
    decreases more.len(),
{
    if more.len() > 0 {
        law_tags_members_are_counted(some, more.drop_last());
        assert((some + more).drop_last() =~= some + more.drop_last());
        assert((some + more).last() == more.last());
    } else {
        assert(some + more =~= some);
    }
    if some.len() == 1 {
        assert(some.drop_last() =~= Seq::empty());
        reveal_with_fuel(tags_named, 2);
    }
}

proof fn lemma_last_place(s: Seq<char>, c: char)
    ensures
        -1 <= last_index(s, c) < s.len(),
        last_index(s, c) >= 0 ==> s[last_index(s, c)] == c,
        forall|i: int| last_index(s, c) < i < s.len() ==> s[i] != c,
    decreases s.len(),
{
    if s.len() > 0 && s.last() != c {
        lemma_last_place(s.drop_last(), c);
        assert forall|i: int| last_index(s, c) < i < s.len() implies s[i] != c by {
            if i < s.len() - 1 {
                assert(s.drop_last()[i] == s[i]);
            }
        }
    }
}

proof fn lemma_first_place(s: Seq<char>, c: char)
    ensures
        0 <= first_index(s, c) <= s.len(),
        first_index(s, c) < s.len() ==> s[first_index(s, c)] == c,
        forall|i: int| 0 <= i < first_index(s, c) ==> s[i] != c,
    decreases s.len(),
{
    if s.len() > 0 && s[0] != c {
        lemma_first_place(s.skip(1), c);
        assert forall|i: int| 0 <= i < first_index(s, c) implies s[i] != c by {
            if i > 0 {
                assert(s.skip(1)[i - 1] == s[i]);
            }
        }
    }
}

/// What stands between an opening and a closing character is taken with both of them, where
/// none opens before it and none closes after it, whatever stands within.
pub proof fn law_the_outermost_pair_is_taken(
    before: Seq<char>,
    within: Seq<char>,
    after: Seq<char>,
    open: char,
    close: char,
)
    requires
        open != close,
        forall|i: int| 0 <= i < before.len() ==> before[i] != open,
        forall|i: int| 0 <= i < after.len() ==> after[i] != close,
    ensures
        outer(before + seq![open] + within + seq![close] + after, open, close) == Some(
            seq![open] + within + seq![close],
        ),
{
    let s = before + seq![open] + within + seq![close] + after;
    let start = before.len() as int;
    let end = (before.len() + 1 + within.len()) as int;
    assert(s[start] == open);
    assert(s[end] == close);
    lemma_first_place(s, open);
    lemma_last_place(s, close);
    assert(first_index(s, open) == start) by {
        let k = first_index(s, open);
        if k < start {
            assert(s[k] == before[k]);
        }
    }
    assert(last_index(s, close) == end) by {
        let k = last_index(s, close);
        if k > end {
            assert(s[k] == after[k - end - 1]);
        }
    }
    assert(s.subrange(start, end + 1) =~= seq![open] + within + seq![close]);
}

} // verus!
