//! Rendering of the configured label declarations.
//!
//! Each declaration is a `key=value` string; the set renders once, at
//! startup, into the block appended to every metric name: empty when there
//! are no declarations, otherwise a comma-separated `key="value"` list in
//! braces.  The key is everything before the first `=`, the value everything
//! after it.  A declaration without `=` is rejected.

use vstd::prelude::*;
use vstd::string::StrSliceExecFns;
use vstd::string::StringExecFns;

verus! {

/// The string contains at least one `=`.
pub open spec fn has_eq(s: Seq<char>) -> bool {
    exists|i: int| 0 <= i < s.len() && s[i] == '='
}

/// Index of the first `=` (the string's length when there is none).
pub open spec fn first_eq(s: Seq<char>) -> int
    decreases s.len(),
{
    if s.len() == 0 {
        0
    } else if s[0] == '=' {
        0
    } else {
        1 + first_eq(s.drop_first())
    }
}

proof fn lemma_first_eq_props(s: Seq<char>)
    ensures
        0 <= first_eq(s) <= s.len(),
        first_eq(s) < s.len() ==> s[first_eq(s)] == '=',
        forall|j: int| 0 <= j < first_eq(s) ==> s[j] != '=',
        !has_eq(s) ==> first_eq(s) == s.len(),
    decreases s.len(),
{
    if s.len() > 0 && s[0] != '=' {
        let t = s.drop_first();
        lemma_first_eq_props(t);
        assert(forall|j: int| 0 <= j < t.len() ==> t[j] == s[j + 1]);
        assert forall|j: int| 0 <= j < first_eq(s) implies s[j] != '=' by {
            if j > 0 {
                assert(t[j - 1] != '=');
            }
        }
        if has_eq(t) {
            let i = choose|i: int| 0 <= i < t.len() && t[i] == '=';
            assert(s[i + 1] == '=');
            assert(has_eq(s));
        }
        if has_eq(s) {
            let i = choose|i: int| 0 <= i < s.len() && s[i] == '=';
            assert(i != 0);
            assert(t[i - 1] == '=');
            assert(has_eq(t));
        }
    }
}

proof fn lemma_first_eq_unique(s: Seq<char>, i: int)
    requires
        0 <= i < s.len(),
        s[i] == '=',
        forall|j: int| 0 <= j < i ==> s[j] != '=',
    ensures
        first_eq(s) == i,
{
    lemma_first_eq_props(s);
    assert(has_eq(s));
    if first_eq(s) < i {
        assert(s[first_eq(s)] != '=');
    }
    if first_eq(s) > i {
        assert(s[i] != '=');
    }
}

/// The rendered form of one declaration: `key="value"`.
pub open spec fn spec_label_pair(s: Seq<char>) -> Seq<char> {
    let i = first_eq(s);
    s.subrange(0, i) + seq!['=', '"'] + s.subrange(i + 1, s.len() as int) + seq!['"']
}

/// The comma-separated rendered declarations, without the braces.
pub open spec fn spec_labels_body(ls: Seq<Seq<char>>) -> Seq<char>
    decreases ls.len(),
{
    if ls.len() == 0 {
        Seq::empty()
    } else if ls.len() == 1 {
        spec_label_pair(ls[0])
    } else {
        spec_labels_body(ls.drop_last()) + seq![','] + spec_label_pair(ls.last())
    }
}

/// The full label block: empty for no declarations (no empty braces),
/// otherwise the rendered declarations in braces.
pub open spec fn spec_labels_text(ls: Seq<Seq<char>>) -> Seq<char> {
    if ls.len() == 0 {
        Seq::empty()
    } else {
        seq!['{'] + spec_labels_body(ls) + seq!['}']
    }
}

/// The views of a vector of label strings.
pub open spec fn labels_views(ls: Seq<String>) -> Seq<Seq<char>> {
    ls.map_values(|l: String| l@)
}

proof fn lemma_body_push(ls: Seq<Seq<char>>, l: Seq<char>)
    ensures
        spec_labels_body(ls.push(l)) == if ls.len() == 0 {
            spec_label_pair(l)
        } else {
            spec_labels_body(ls) + seq![','] + spec_label_pair(l)
        },
{
    assert(ls.push(l).drop_last() =~= ls);
    assert(ls.push(l).last() == l);
}

/// First `=` of a label string, if any.
fn find_eq(s: &str) -> (r: Option<usize>)
    ensures
        match r {
            Some(i) => i < s@.len() && s@[i as int] == '=' && first_eq(s@) == i as int,
            None => !has_eq(s@),
        },
{
    let n = s.unicode_len();
    let mut i: usize = 0;
    while i < n
        invariant
            i <= n == s@.len(),
            forall|j: int| 0 <= j < i ==> s@[j] != '=',
        decreases n - i,
    {
        if s.get_char(i) == '=' {
            proof {
                lemma_first_eq_unique(s@, i as int);
            }
            return Some(i);
        }
        i = i + 1;
    }
    None
}

/// Render the label declarations into the block used on every payload line:
/// `Ok` with the rendered block when every declaration holds an `=`,
/// otherwise `Err` with the index of the first declaration that does not.
pub fn render_labels(labels: &Vec<String>) -> (r: Result<String, usize>)
    ensures
        match r {
            Ok(text) => {
                &&& forall|i: int| 0 <= i < labels@.len() ==> has_eq(#[trigger] labels@[i]@)
                &&& text@ == spec_labels_text(labels_views(labels@))
            },
            Err(i) => {
                &&& i < labels@.len()
                &&& !has_eq(labels@[i as int]@)
                &&& forall|j: int| 0 <= j < i ==> has_eq(#[trigger] labels@[j]@)
            },
        },
{
    if labels.len() == 0 {
        let empty = String::new();
        proof {
            assert(labels_views(labels@).len() == 0);
        }
        return Ok(empty);
    }
    let mut out = String::new();
    out.append("{");
    proof {
        reveal_strlit("{");
        assert(labels_views(labels@).subrange(0, 0) =~= Seq::<Seq<char>>::empty());
        assert(out@ =~= seq!['{'] + spec_labels_body(labels_views(labels@).subrange(0, 0)));
    }
    let mut i: usize = 0;
    while i < labels.len()
        invariant
            i <= labels@.len(),
            out@ == seq!['{'] + spec_labels_body(labels_views(labels@).subrange(0, i as int)),
            forall|j: int| 0 <= j < i ==> has_eq(#[trigger] labels@[j]@),
        decreases labels@.len() - i,
    {
        let ghost before = out@;
        let lab = &labels[i];
        let n = lab.as_str().unicode_len();
        match find_eq(lab.as_str()) {
            None => {
                return Err(i);
            },
            Some(k) => {
                if i > 0 {
                    out.append(",");
                }
                let key = lab.as_str().substring_char(0, k);
                let val = lab.as_str().substring_char(k + 1, n);
                out.append(key);
                out.append("=\"");
                out.append(val);
                out.append("\"");
                proof {
                    reveal_strlit(",");
                    reveal_strlit("=\"");
                    reveal_strlit("\"");
                    let views = labels_views(labels@);
                    assert(views[i as int] == labels@[i as int]@);
                    assert(spec_label_pair(views[i as int]) =~= key@ + seq!['=', '"'] + val@
                        + seq!['"']);
                    lemma_body_push(views.subrange(0, i as int), views[i as int]);
                    assert(views.subrange(0, i + 1) =~= views.subrange(0, i as int).push(
                        views[i as int],
                    ));
                    if i == 0 {
                        assert(out@ =~= seq!['{'] + spec_labels_body(views.subrange(0, i + 1)));
                    } else {
                        assert(out@ =~= seq!['{'] + spec_labels_body(views.subrange(0, i + 1)));
                    }
                }
            },
        }
        i = i + 1;
    }
    out.append("}");
    proof {
        reveal_strlit("}");
        let views = labels_views(labels@);
        assert(views.subrange(0, labels@.len() as int) =~= views);
        assert(out@ =~= spec_labels_text(views));
    }
    Ok(out)
}

} // verus!
