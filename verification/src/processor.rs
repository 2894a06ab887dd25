//! The unit processor's verified core: assembling a unit's parts into
//! one output stream in source order, deriving a unit's title from its
//! content, and reassembling a chunked local read.

use vstd::prelude::*;

use crate::text::{first_line_spec, first_line, trim, trim_spec};

verus! {

/// The separator written before each part of a unit: two line breaks.
pub open spec fn separator() -> Seq<char> {
    seq!['\n', '\n']
}

/// The whole output of a unit whose parts are `parts`: each part in
/// order, each preceded by the separator.
pub open spec fn unit_text(parts: Seq<Seq<char>>) -> Seq<char>
    decreases parts.len(),
{
    if parts.len() == 0 {
        Seq::empty()
    } else {
        separator() + parts[0] + unit_text(parts.skip(1))
    }
}

/// One more part extends the output at its end, after a separator.
pub proof fn lemma_unit_text_snoc(parts: Seq<Seq<char>>, p: Seq<char>)
    ensures
        unit_text(parts.push(p)) == unit_text(parts) + separator() + p,
    decreases parts.len(),
{
    if parts.len() == 0 {
        assert(parts.push(p).skip(1) =~= Seq::<Seq<char>>::empty());
        assert(parts.push(p)[0] == p);
        assert(unit_text(parts.push(p)) == separator() + p + unit_text(
            Seq::<Seq<char>>::empty(),
        ));
        assert(unit_text(parts.push(p)) =~= unit_text(parts) + separator() + p);
    } else {
        assert(parts.push(p).skip(1) =~= parts.skip(1).push(p));
        lemma_unit_text_snoc(parts.skip(1), p);
        assert(unit_text(parts.push(p)) =~= unit_text(parts) + separator() + p);
    }
}

/// Law: the sink receives the parts strictly in source order — after any
/// prefix of the sources, the next part lands at the very end of the
/// output, behind one separator, whatever order the parts were obtained
/// in.
pub proof fn lemma_write_order(parts: Seq<Seq<char>>, k: int)
    requires
        0 <= k < parts.len(),
    ensures
        unit_text(parts.take(k + 1)) == unit_text(parts.take(k)) + separator() + parts[k],
{
    assert(parts.take(k + 1) =~= parts.take(k).push(parts[k]));
    lemma_unit_text_snoc(parts.take(k), parts[k]);
}

/// The separator as text, for writers outside the library.
pub fn separator_text() -> (r: &'static str)
    ensures
        r@ == separator(),
{
    proof {
        reveal_strlit("\n\n");
        assert("\n\n"@ =~= separator());
    }
    "\n\n"
}

/// Append one part to a unit's output: the separator, then the part.
pub fn append_part(sink: &mut String, part: &str)
    ensures
        final(sink)@ == old(sink)@ + separator() + part@,
{
    proof {
        reveal_strlit("\n\n");
        assert("\n\n"@ =~= separator());
    }
    sink.append("\n\n");
    sink.append(part);
}

/// Assemble a whole unit's output from its parts, in order.
pub fn assemble_unit(parts: &Vec<String>) -> (r: String)
    ensures
        r@ == unit_text(parts@.map_values(|p: String| p@)),
{
    let ghost pv = parts@.map_values(|p: String| p@);
    let mut out = String::new();
    let mut i: usize = 0;
    proof {
        assert(pv.take(0) =~= Seq::<Seq<char>>::empty());
    }
    while i < parts.len()
        invariant
            0 <= i <= parts.len(),
            pv == parts@.map_values(|p: String| p@),
            out@ == unit_text(pv.take(i as int)),
        decreases parts.len() - i,
    {
        append_part(&mut out, parts[i].as_str());
        proof {
            lemma_write_order(pv, i as int);
        }
        i = i + 1;
    }
    proof {
        assert(pv.take(parts@.len() as int) =~= pv);
    }
    out
}

/// The title a unit's content derives: the first line of the trimmed
/// content, itself trimmed. Empty when no title can be derived.
pub open spec fn title_of(content: Seq<char>) -> Seq<char> {
    trim_spec(first_line_spec(trim_spec(content)))
}

/// Derive the output title from a unit's content; `None` when the
/// content yields no non-empty first line.
pub fn derive_title(content: &str) -> (r: Option<String>)
    ensures
        match r {
            Some(t) => title_of(content@).len() > 0 && t@ == title_of(content@),
            None => title_of(content@).len() == 0,
        },
{
    let trimmed = trim(content);
    let fl = first_line(trimmed.as_str());
    let title = trim(fl.as_str());
    if title.unicode_len() == 0 {
        None
    } else {
        Some(title)
    }
}

/// The concatenation of a sequence of byte chunks.
pub open spec fn flat(chunks: Seq<Seq<u8>>) -> Seq<u8>
    decreases chunks.len(),
{
    if chunks.len() == 0 {
        Seq::empty()
    } else {
        chunks[0] + flat(chunks.skip(1))
    }
}

/// Reassemble a local read made in fixed-size chunks into the full
/// content; its length is the byte count the read reports.
pub fn concat_chunks(chunks: &Vec<Vec<u8>>) -> (r: Vec<u8>)
    ensures
        r@ == flat(chunks@.map_values(|c: Vec<u8>| c@)),
{
    let ghost cv = chunks@.map_values(|c: Vec<u8>| c@);
    let mut out: Vec<u8> = Vec::new();
    let mut i: usize = 0;
    proof {
        assert(cv.skip(0) =~= cv);
        assert(out@ + flat(cv) =~= flat(cv));
    }
    while i < chunks.len()
        invariant
            0 <= i <= chunks.len(),
            cv == chunks@.map_values(|c: Vec<u8>| c@),
            out@ + flat(cv.skip(i as int)) == flat(cv),
        decreases chunks.len() - i,
    {
        let ghost out0 = out@;
        let chunk = &chunks[i];
        let mut j: usize = 0;
        while j < chunk.len()
            invariant
                0 <= j <= chunk.len(),
                chunk@ == cv[i as int],
                i < chunks@.len(),
                cv == chunks@.map_values(|c: Vec<u8>| c@),
                out@ == out0 + chunk@.take(j as int),
            decreases chunk.len() - j,
        {
            out.push(chunk[j]);
            proof {
                assert(out@ =~= out0 + chunk@.take(j + 1));
            }
            j = j + 1;
        }
        proof {
            assert(chunk@.take(chunk@.len() as int) =~= chunk@);
            assert(cv.skip(i as int).skip(1) =~= cv.skip(i + 1));
            assert(out@ + flat(cv.skip(i + 1)) =~= flat(cv));
        }
        i = i + 1;
    }
    proof {
        assert(cv.skip(chunks@.len() as int) =~= Seq::<Seq<u8>>::empty());
        assert(out@ + flat(Seq::<Seq<u8>>::empty()) =~= out@);
    }
    out
}

} // verus!
