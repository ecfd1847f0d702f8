use vstd::prelude::*;
use vstd::string::*;

verus! {

/// The entries joined with `", "` between each two.
pub open spec fn joined(parts: Seq<Seq<char>>) -> Seq<char>
    decreases parts.len(),
{
    if parts.len() == 0 {
        Seq::empty()
    } else if parts.len() == 1 {
        parts[0]
    } else {
        joined(parts.drop_last()) + seq![',', ' '] + parts.last()
    }
}

/// The entries joined by `", "` inside square brackets: `[a, b, c]`.
pub open spec fn bracketed(parts: Seq<Seq<char>>) -> Seq<char> {
    seq!['['] + joined(parts) + seq![']']
}

/// Renders already formatted entries as a bracketed list.
pub fn render_entries(parts: &Vec<String>) -> (r: String)
    ensures
        r@ == bracketed(parts@.map_values(|p: String| p@)),
{
    let ghost views = parts@.map_values(|p: String| p@);
    let mut out = String::new();
    proof {
        reveal_strlit("[");
        reveal_strlit(", ");
        reveal_strlit("]");
    }
    out.append("[");
    let mut i: usize = 0;
    while i < parts.len()
        invariant
            i <= parts@.len(),
            views == parts@.map_values(|p: String| p@),
            out@ == seq!['['] + joined(views.take(i as int)),
        decreases parts@.len() - i,
    {
        if i > 0 {
            out.append(", ");
        }
        out.append(parts[i].as_str());
        proof {
            let next = views.take(i + 1);
            assert(next.drop_last() =~= views.take(i as int));
            assert(next.last() == parts@[i as int]@);
            reveal_strlit(", ");
            if i == 0 {
                assert(out@ =~= seq!['['] + joined(next));
            } else {
                assert(joined(next) == joined(views.take(i as int)) + seq![',', ' '] + next.last());
                assert(out@ =~= seq!['['] + joined(next));
            }
        }
        i = i + 1;
    }
    out.append("]");
    assert(views.take(i as int) =~= views);
    out
}

} // verus!
