//! The lines the default action prints.

use vstd::prelude::*;
use crate::text::texts;
use crate::numeric::{decimal_string, decimal_text};

verus! {

/// What `format!("{:?}", s)` writes for a text: the text in double quotes,
/// with `std`'s escapes.
pub uninterp spec fn debug_text(s: Seq<char>) -> Seq<char>;

/// Calls `format!("{:?}", s)`. Trusted: the result is named by
/// `debug_text`; the escaping rules of `str::escape_debug` are not stated.
#[verifier::external_body]
fn debug_of(s: &str) -> (r: String)
    ensures
        r@ == debug_text(s@),
{
    format!("{:?}", s)
}

/// The items joined with `", "` between them.
pub open spec fn joined(items: Seq<Seq<char>>) -> Seq<char>
    decreases items.len(),
{
    if items.len() == 0 {
        Seq::empty()
    } else if items.len() == 1 {
        items[0]
    } else {
        joined(items.drop_last()) + ", "@ + items.last()
    }
}

/// What `{:?}` writes for a list of texts: `[`, the quoted texts separated
/// by `, `, then `]`.
pub open spec fn list_debug_text(items: Seq<Seq<char>>) -> Seq<char> {
    "["@ + joined(items.map_values(|s: Seq<char>| debug_text(s))) + "]"@
}

/// `format!("{:?}", args)` for a list of texts.
pub fn list_debug(args: &Vec<String>) -> (r: String)
    ensures
        r@ == list_debug_text(texts(args@)),
{
    let ghost quoted = texts(args@).map_values(|s: Seq<char>| debug_text(s));
    let mut body = String::new();
    let mut i: usize = 0;
    while i < args.len()
        invariant
            i <= args.len(),
            quoted == texts(args@).map_values(|s: Seq<char>| debug_text(s)),
            body@ == joined(quoted.subrange(0, i as int)),
        decreases args.len() - i,
    {
        let q = debug_of(args[i].as_str());
        let ghost prefix = quoted.subrange(0, i + 1);
        assert(prefix.drop_last() =~= quoted.subrange(0, i as int));
        assert(prefix.last() == q@);
        if i > 0 {
            body.append(", ");
        } else {
            assert(quoted.subrange(0, i as int).len() == 0);
        }
        body.append(q.as_str());
        i = i + 1;
    }
    assert(quoted.subrange(0, i as int) =~= quoted);
    let mut r = String::new();
    r.append("[");
    r.append(body.as_str());
    r.append("]");
    r
}

/// The greeting of the default action: `Bye, <args>` with `--bye`,
/// `Hello, <args>` without.
pub open spec fn greeting_text(bye: bool, args: Seq<Seq<char>>) -> Seq<char> {
    (if bye { "Bye, "@ } else { "Hello, "@ }) + list_debug_text(args)
}

pub fn greeting(bye: bool, args: &Vec<String>) -> (r: String)
    ensures
        r@ == greeting_text(bye, texts(args@)),
{
    let mut r = if bye { "Bye, ".to_owned() } else { "Hello, ".to_owned() };
    let list = list_debug(args);
    r.append(list.as_str());
    r
}

/// The line for `--age`: `<args> is <age> years old`.
pub open spec fn age_text(args: Seq<Seq<char>>, age: int) -> Seq<char> {
    list_debug_text(args) + " is "@ + decimal_text(age) + " years old"@
}

pub fn age_line(args: &Vec<String>, age: i64) -> (r: String)
    ensures
        r@ == age_text(texts(args@), age as int),
{
    let mut r = list_debug(args);
    r.append(" is ");
    let n = decimal_string(age);
    r.append(n.as_str());
    r.append(" years old");
    r
}

/// The list of no texts is `[]`; one more text adds its quoted form at the
/// end, after `, ` when the list already held one, just before the `]`.
pub proof fn each_text_is_quoted_in_turn(items: Seq<Seq<char>>, x: Seq<char>)
    ensures
        list_debug_text(Seq::empty()) == "[]"@,
        items.len() == 0 ==> list_debug_text(items.push(x)) == "["@ + debug_text(x) + "]"@,
        items.len() > 0 ==> list_debug_text(items.push(x)) == list_debug_text(items).drop_last()
            + ", "@ + debug_text(x) + "]"@,
{
    reveal_strlit("[]");
    reveal_strlit("[");
    reveal_strlit("]");
    let f = |s: Seq<char>| debug_text(s);
    let q = items.map_values(f);
    let qp = items.push(x).map_values(f);
    assert(qp =~= q.push(debug_text(x)));
    assert(qp.drop_last() =~= q);
    assert(Seq::<Seq<char>>::empty().map_values(f) =~= Seq::<Seq<char>>::empty());
    assert(list_debug_text(Seq::empty()) =~= "[]"@);
    if items.len() == 0 {
        assert(list_debug_text(items.push(x)) =~= "["@ + debug_text(x) + "]"@);
    } else {
        let l = list_debug_text(items);
        assert(l.drop_last() =~= "["@ + joined(q));
        assert(list_debug_text(items.push(x)) =~= l.drop_last() + ", "@ + debug_text(x) + "]"@);
    }
}

} // verus!
