//! The block of the prompt that holds a meeting's attachments.
use crate::summary::context::types::AttachmentContent;
use crate::text;
use vstd::prelude::*;

verus! {

/// The XML text that stands for one character.
pub open spec fn escape_of(c: char) -> Seq<char> {
    if c == '<' {
        "&lt;"@
    } else if c == '>' {
        "&gt;"@
    } else if c == '&' {
        "&amp;"@
    } else if c == '"' {
        "&quot;"@
    } else if c == '\'' {
        "&apos;"@
    } else {
        seq![c]
    }
}

/// The XML text that stands for a text: character by character.
pub open spec fn escaped(s: Seq<char>) -> Seq<char>
    decreases s.len(),
{
    if s.len() == 0 {
        Seq::empty()
    } else {
        escaped(s.drop_last()) + escape_of(s.last())
    }
}

/// Writes the five special characters of XML as entities.
pub fn xml_escape(s: &str) -> (r: String)
    ensures
        r@ == escaped(s@),
{
    let chars = text::chars_of(s);
    let mut out = String::new();
    let mut i: usize = 0;
    while i < chars.len()
        invariant
            chars@ == s@,
            i <= chars@.len(),
            out@ == escaped(s@.take(i as int)),
        decreases chars@.len() - i,
    {
        let ghost before = out@;
        match chars[i] {
            '<' => out.append("&lt;"),
            '>' => out.append("&gt;"),
            '&' => out.append("&amp;"),
            '"' => out.append("&quot;"),
            '\'' => out.append("&apos;"),
            c => out.push(c),
        }
        proof {
            let now = s@.take(i + 1);
            assert(now.drop_last() =~= s@.take(i as int));
            assert(now.last() == s@[i as int]);
            assert(out@ =~= before + escape_of(s@[i as int]));
        }
        i = i + 1;
    }
    proof {
        assert(s@.take(s@.len() as int) =~= s@);
    }
    out
}

/// One attachment in the block. Its name is escaped, its content stands as it is.
pub open spec fn file_element(a: AttachmentContent) -> Seq<char> {
    "<file name=\""@ + escaped(a.display_name@) + "\""@ + (if a.truncated {
        " truncated=\"true\""@
    } else {
        Seq::empty()
    }) + ">\n"@ + a.content@ + "\n</file>\n"@
}

/// The attachments of the block, in their order.
pub open spec fn file_elements(attachments: Seq<AttachmentContent>) -> Seq<char>
    decreases attachments.len(),
{
    if attachments.len() == 0 {
        Seq::empty()
    } else {
        file_elements(attachments.drop_last()) + file_element(attachments.last())
    }
}

/// The block, or nothing where there are no attachments.
pub open spec fn attachments_block(attachments: Seq<AttachmentContent>) -> Seq<char> {
    if attachments.len() == 0 {
        Seq::empty()
    } else {
        "\n\n<attachments>\n"@ + file_elements(attachments) + "</attachments>"@
    }
}

/// The block of attachments that goes into the prompt.
pub fn render_attachments_block(attachments: &[AttachmentContent]) -> (r: String)
    ensures
        r@ == attachments_block(attachments@),
{
    if attachments.len() == 0 {
        return String::new();
    }
    let mut out = "\n\n<attachments>\n".to_owned();
    let mut i: usize = 0;
    while i < attachments.len()
        invariant
            i <= attachments@.len(),
            out@ == "\n\n<attachments>\n"@ + file_elements(attachments@.take(i as int)),
        decreases attachments@.len() - i,
    {
        let ghost before = out@;
        let a = &attachments[i];
        out.append("<file name=\"");
        out.append(xml_escape(a.display_name.as_str()).as_str());
        out.append("\"");
        if a.truncated {
            out.append(" truncated=\"true\"");
        }
        out.append(">\n");
        out.append(a.content.as_str());
        out.append("\n</file>\n");
        proof {
            let now = attachments@.take(i + 1);
            assert(now.drop_last() =~= attachments@.take(i as int));
            assert(now.last() == attachments@[i as int]);
            assert(out@ =~= before + file_element(attachments@[i as int]));
            assert(out@ =~= "\n\n<attachments>\n"@ + file_elements(now));
        }
        i = i + 1;
    }
    proof {
        assert(attachments@.take(attachments@.len() as int) =~= attachments@);
    }
    out.append("</attachments>");
    out
}

proof fn lemma_entities()
    ensures
        "&lt;"@ == seq!['&', 'l', 't', ';'],
        "&gt;"@ == seq!['&', 'g', 't', ';'],
        "&amp;"@ == seq!['&', 'a', 'm', 'p', ';'],
        "&quot;"@ == seq!['&', 'q', 'u', 'o', 't', ';'],
        "&apos;"@ == seq!['&', 'a', 'p', 'o', 's', ';'],
{
    reveal_strlit("&lt;");
    reveal_strlit("&gt;");
    reveal_strlit("&amp;");
    reveal_strlit("&quot;");
    reveal_strlit("&apos;");
    assert("&lt;"@ =~= seq!['&', 'l', 't', ';']);
    assert("&gt;"@ =~= seq!['&', 'g', 't', ';']);
    assert("&amp;"@ =~= seq!['&', 'a', 'm', 'p', ';']);
    assert("&quot;"@ =~= seq!['&', 'q', 'u', 'o', 't', ';']);
    assert("&apos;"@ =~= seq!['&', 'a', 'p', 'o', 's', ';']);
}

/// An escaped name can stand inside a quoted attribute: it closes no quotes and
/// opens or closes no tag.
pub proof fn law_escaped_text_has_no_markup(s: Seq<char>)
    ensures
        forall|i: int|
            0 <= i < escaped(s).len() ==> {
                let c = #[trigger] escaped(s)[i];
                c != '<' && c != '>' && c != '"' && c != '\''
            },
    decreases s.len(),
{
    if s.len() > 0 {
        law_escaped_text_has_no_markup(s.drop_last());
        lemma_entities();
        let head = escaped(s.drop_last());
        let tail = escape_of(s.last());
        assert forall|i: int| 0 <= i < escaped(s).len() implies ({
            let c = #[trigger] escaped(s)[i];
            c != '<' && c != '>' && c != '"' && c != '\''
        }) by {
            if i < head.len() {
                assert(escaped(s)[i] == head[i]);
            } else {
                assert(escaped(s)[i] == tail[i - head.len()]);
            }
        }
    }
}

proof fn lemma_escaped_front(s: Seq<char>)
    requires
        s.len() > 0,
    ensures
        escaped(s) == escape_of(s[0]) + escaped(s.skip(1)),
    decreases s.len(),
{
    if s.len() == 1 {
        assert(s.drop_last() =~= Seq::<char>::empty());
        assert(s.skip(1) =~= Seq::<char>::empty());
        assert(escaped(s) =~= escape_of(s[0]) + escaped(s.skip(1)));
    } else {
        lemma_escaped_front(s.drop_last());
        assert(s.drop_last().skip(1) =~= s.skip(1).drop_last());
        assert(s.skip(1).last() == s.last());
        assert(escaped(s) =~= escape_of(s[0]) + escaped(s.skip(1)));
    }
}

/// Escaping loses nothing: different texts have different escaped forms.
pub proof fn law_escaping_is_reversible(a: Seq<char>, b: Seq<char>)
    requires
        escaped(a) == escaped(b),
    ensures
        a == b,
    decreases a.len(),
{
    lemma_entities();
    if a.len() > 0 {
        lemma_escaped_front(a);
    }
    if b.len() > 0 {
        lemma_escaped_front(b);
    }
    if a.len() == 0 || b.len() == 0 {
        assert(a =~= b);
    } else {
        let x = escape_of(a[0]);
        let y = escape_of(b[0]);
        let whole = escaped(a);
        assert(whole.len() >= x.len() && whole.len() >= y.len());
        assert(forall|i: int| 0 <= i < x.len() ==> whole[i] == x[i]);
        assert(forall|i: int| 0 <= i < y.len() ==> whole[i] == y[i]);
        assert(x[0] == y[0]);
        if x.len() > 1 && y.len() > 1 {
            assert(x[1] == y[1]);
            assert(x[2] == y[2]);
        }
        assert(a[0] == b[0]);
        assert(escaped(a.skip(1)) =~= whole.skip(x.len() as int));
        assert(escaped(b.skip(1)) =~= whole.skip(x.len() as int));
        law_escaping_is_reversible(a.skip(1), b.skip(1));
        assert(a =~= seq![a[0]] + a.skip(1));
        assert(b =~= seq![b[0]] + b.skip(1));
    }
}

/// Escaping goes character by character: texts one after the other are escaped one after the
/// other, the five special characters become their entities, and all others stay.
pub proof fn law_escaping_goes_by_characters(a: Seq<char>, c: char, b: Seq<char>)
    ensures
        escaped(a + seq![c] + b) == escaped(a) + escaped(seq![c]) + escaped(b),
        escaped(seq!['<']) == "&lt;"@,
        escaped(seq!['>']) == "&gt;"@,
        escaped(seq!['&']) == "&amp;"@,
        escaped(seq!['"']) == "&quot;"@,
        escaped(seq!['\'']) == "&apos;"@,
        c != '<' && c != '>' && c != '&' && c != '"' && c != '\'' ==> escaped(seq![c]) == seq![c],
{
    lemma_escaped_add(a + seq![c], b);
    lemma_escaped_add(a, seq![c]);
    lemma_escaped_one('<');
    lemma_escaped_one('>');
    lemma_escaped_one('&');
    lemma_escaped_one('"');
    lemma_escaped_one('\'');
    lemma_escaped_one(c);
}

proof fn lemma_escaped_one(c: char)
    ensures
        escaped(seq![c]) == escape_of(c),
{
    let one = seq![c];
    assert(one.drop_last() =~= Seq::<char>::empty());
    assert(escaped(one.drop_last()) =~= Seq::<char>::empty());
    assert(escaped(one) =~= escape_of(c));
}

proof fn lemma_escaped_add(a: Seq<char>, b: Seq<char>)
    ensures
        escaped(a + b) == escaped(a) + escaped(b),
    decreases b.len(),
{
    if b.len() == 0 {
        assert(a + b =~= a);
        assert(escaped(a) + escaped(b) =~= escaped(a));
    } else {
        lemma_escaped_add(a, b.drop_last());
        assert((a + b).drop_last() =~= a + b.drop_last());
        assert((a + b).last() == b.last());
        assert(escaped(a + b) =~= escaped(a) + escaped(b));
    }
}

proof fn lemma_elements_around(attachments: Seq<AttachmentContent>, k: int)
    requires
        0 <= k < attachments.len(),
    ensures
        file_elements(attachments) == file_elements(attachments.take(k)) + file_element(
            attachments[k],
        ) + file_elements(attachments.skip(k + 1)),
    decreases attachments.len(),
{
    let head = attachments.drop_last();
    let rest = attachments.skip(k + 1);
    if k == head.len() {
        assert(attachments.take(k) =~= head);
        assert(rest =~= Seq::<AttachmentContent>::empty());
        assert(file_elements(rest) =~= Seq::<char>::empty());
        assert(file_elements(attachments) =~= file_elements(attachments.take(k)) + file_element(
            attachments[k],
        ) + file_elements(rest));
    } else {
        lemma_elements_around(head, k);
        assert(head.take(k) =~= attachments.take(k));
        assert(rest.drop_last() =~= head.skip(k + 1));
        assert(rest.last() == attachments.last());
        assert(file_elements(attachments) =~= file_elements(attachments.take(k)) + file_element(
            attachments[k],
        ) + file_elements(rest));
    }
}

/// Every attachment stands in the block, cut or not: its escaped name in its opening tag, then
/// its whole content, then its closing tag.
pub proof fn law_every_attachment_stands_in_the_block(
    attachments: Seq<AttachmentContent>,
    k: int,
)
    requires
        0 <= k < attachments.len(),
    ensures
        text::has(
            attachments_block(attachments),
            "<file name=\""@ + escaped(attachments[k].display_name@) + "\""@ + (
            if attachments[k].truncated {
                " truncated=\"true\""@
            } else {
                Seq::<char>::empty()
            }) + ">\n"@ + attachments[k].content@ + "\n</file>\n"@,
        ),
        text::has(
            attachments_block(attachments),
            ">\n"@ + attachments[k].content@ + "\n</file>\n"@,
        ),
{
    let a = attachments[k];
    let open = "\n\n<attachments>\n"@;
    let close = "</attachments>"@;
    let before = file_elements(attachments.take(k));
    let after = file_elements(attachments.skip(k + 1));
    let element = file_element(a);
    lemma_elements_around(attachments, k);
    lemma_within(open, before, element, after, close);
    text::law_pieces_stand_in_the_whole(open + before, element, after + close);
    let tag = "<file name=\""@ + escaped(a.display_name@) + "\""@ + (if a.truncated {
        " truncated=\"true\""@
    } else {
        Seq::<char>::empty()
    });
    lemma_end_of(tag, ">\n"@, a.content@, "\n</file>\n"@);
    let inside = ">\n"@ + a.content@ + "\n</file>\n"@;
    lemma_end_within(open + before, tag, inside, after + close);
    text::law_pieces_stand_in_the_whole(open + before + tag, inside, after + close);
}

proof fn lemma_within(
    open: Seq<char>,
    before: Seq<char>,
    piece: Seq<char>,
    after: Seq<char>,
    close: Seq<char>,
)
    ensures
        open + (before + piece + after) + close == (open + before) + piece + (after + close),
{
    assert(open + (before + piece + after) + close =~= (open + before) + piece + (after + close));
}

proof fn lemma_end_of(a: Seq<char>, b: Seq<char>, c: Seq<char>, d: Seq<char>)
    ensures
        a + b + c + d == a + (b + c + d),
{
    assert(a + b + c + d =~= a + (b + c + d));
}

proof fn lemma_end_within(before: Seq<char>, start: Seq<char>, end: Seq<char>, after: Seq<char>)
    ensures
        before + (start + end) + after == before + start + end + after,
{
    assert(before + (start + end) + after =~= before + start + end + after);
}

/// Attachments are added at the end of the block: all that stood in it stays, in its order,
/// and the closing mark follows the last one. Without attachments there is no block.
pub proof fn law_attachments_come_in_order(
    attachments: Seq<AttachmentContent>,
    a: AttachmentContent,
)
    ensures
        attachments_block(Seq::empty()) == Seq::<char>::empty(),
        attachments_block(attachments.push(a)) == (if attachments.len() == 0 {
            "\n\n<attachments>\n"@
        } else {
            attachments_block(attachments).take(
                attachments_block(attachments).len() - "</attachments>"@.len(),
            )
        }) + ("<file name=\""@ + escaped(a.display_name@) + "\""@ + (if a.truncated {
            " truncated=\"true\""@
        } else {
            Seq::<char>::empty()
        }) + ">\n"@ + a.content@ + "\n</file>\n"@) + "</attachments>"@,
{
    let all = attachments.push(a);
    let before = "\n\n<attachments>\n"@ + file_elements(attachments);
    let element = "<file name=\""@ + escaped(a.display_name@) + "\""@ + (if a.truncated {
        " truncated=\"true\""@
    } else {
        Seq::<char>::empty()
    }) + ">\n"@ + a.content@ + "\n</file>\n"@;
    assert(all.drop_last() =~= attachments);
    assert(all.last() == a);
    lemma_end_within("\n\n<attachments>\n"@, file_elements(attachments), element, "</attachments>"@);
    if attachments.len() == 0 {
        assert(before =~= "\n\n<attachments>\n"@);
    } else {
        let old_block = attachments_block(attachments);
        assert(old_block.take(old_block.len() - "</attachments>"@.len()) =~= before);
    }
}

} // verus!
