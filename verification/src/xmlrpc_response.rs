//! Reading the login server's XML-RPC reply: the members of the reply's
//! struct as name and text, each value flattened to text the way the login
//! fields are then read from.

use vstd::prelude::*;
use crate::text::{join, join_from, push_chars, push_str, string_of, vv, chars_eq, chars_of};
use crate::xml_tree::{
    child, find_child, first_child, has_tag, lemma_first_child_bounds, parse_xml_document, text_or,
    text_or_exec, xml_document, XmlNode,
};

verus! {

/// The text of an XML-RPC `<value>`: that of its first `string` child (empty
/// without text), else of its first `boolean`, `int` or `double` child ("0",
/// "0" and "0.0" without text); for an `array`, the non-empty texts of the
/// values in its `data` children joined by commas; for a `struct`, its
/// members as `"name":"text"` joined by commas in braces; otherwise the
/// value's own text, or nothing.
pub open spec fn value_text(v: XmlNode) -> Seq<char>
    decreases v,
{
    let cs = v.children@;
    if first_child(cs, "string"@) is Some {
        text_or(cs[first_child(cs, "string"@)->0], ""@)
    } else if first_child(cs, "boolean"@) is Some {
        text_or(cs[first_child(cs, "boolean"@)->0], "0"@)
    } else if first_child(cs, "int"@) is Some {
        text_or(cs[first_child(cs, "int"@)->0], "0"@)
    } else if first_child(cs, "double"@) is Some {
        text_or(cs[first_child(cs, "double"@)->0], "0.0"@)
    } else if first_child(cs, "array"@) is Some {
        proof {
            lemma_first_child_bounds(cs, "array"@);
        }
        join(array_items(cs[first_child(cs, "array"@)->0].children@), ","@)
    } else if first_child(cs, "struct"@) is Some {
        proof {
            lemma_first_child_bounds(cs, "struct"@);
        }
        "{"@ + join(struct_pairs(cs[first_child(cs, "struct"@)->0].children@), ","@) + "}"@
    } else {
        text_or(v, ""@)
    }
}

/// The non-empty value texts of the `data` nodes among `cs`, in order.
pub open spec fn array_items(cs: Seq<XmlNode>) -> Seq<Seq<char>>
    decreases cs,
{
    if cs.len() == 0 {
        Seq::empty()
    } else {
        array_items(cs.drop_last()) + if cs.last().tag@ == "data"@ {
            data_items(cs.last().children@)
        } else {
            Seq::empty()
        }
    }
}

/// The non-empty texts of the `value` nodes among `cs`, in order.
pub open spec fn data_items(cs: Seq<XmlNode>) -> Seq<Seq<char>>
    decreases cs,
{
    if cs.len() == 0 {
        Seq::empty()
    } else {
        data_items(cs.drop_last()) + if cs.last().tag@ == "value"@ && value_text(cs.last()).len() > 0 {
            seq![value_text(cs.last())]
        } else {
            Seq::empty()
        }
    }
}

/// `"name":"text"`.
pub open spec fn quoted_pair(name: Seq<char>, text: Seq<char>) -> Seq<char> {
    "\""@ + name + "\":\""@ + text + "\""@
}

/// The `member` nodes among `cs` that have a `name` and a `value` child, as
/// `"name":"text"`, in order.
pub open spec fn struct_pairs(cs: Seq<XmlNode>) -> Seq<Seq<char>>
    decreases cs,
{
    if cs.len() == 0 {
        Seq::empty()
    } else {
        let m = cs.last();
        let mc = m.children@;
        struct_pairs(cs.drop_last()) + if m.tag@ == "member"@ && first_child(mc, "name"@) is Some
            && first_child(mc, "value"@) is Some {
            proof {
                lemma_first_child_bounds(mc, "value"@);
            }
            seq![quoted_pair(text_or(mc[first_child(mc, "name"@)->0], ""@), value_text(mc[first_child(mc, "value"@)->0]))]
        } else {
            Seq::empty()
        }
    }
}

/// Appends the texts to `r`.
fn append_all(r: &mut Vec<Vec<char>>, items: Vec<Vec<char>>)
    ensures
        vv(final(r)@) == vv(old(r)@) + vv(items@),
{
    let ghost start = r@;
    let mut items = items;
    let ghost all = items@;
    let mut i: usize = 0;
    let n = items.len();
    while items.len() > 0
        invariant
            i + items@.len() == n,
            n == all.len(),
            items@ == all.skip(i as int),
            vv(r@) == vv(start) + vv(all.take(i as int)),
        decreases items.len(),
    {
        let x = items.remove(0);
        assert(x == all[i as int]);
        let ghost before = r@;
        r.push(x);
        assert(vv(r@) =~= vv(before).push(x@));
        assert(vv(all.take(i + 1)) =~= vv(all.take(i as int)).push(x@));
        assert(vv(r@) =~= vv(start) + vv(all.take(i + 1)));
        i = i + 1;
        assert(items@ =~= all.skip(i as int));
    }
    assert(all.take(n as int) =~= all);
}

/// The text of an XML-RPC `<value>` node.
fn value_text_exec(v: &XmlNode) -> (r: Vec<char>)
    ensures
        r@ == value_text(*v),
    decreases v,
{
    if let Some(k) = find_child(v, "string") {
        return text_or_exec(&v.children[k], "");
    }
    if let Some(k) = find_child(v, "boolean") {
        return text_or_exec(&v.children[k], "0");
    }
    if let Some(k) = find_child(v, "int") {
        return text_or_exec(&v.children[k], "0");
    }
    if let Some(k) = find_child(v, "double") {
        return text_or_exec(&v.children[k], "0.0");
    }
    if let Some(k) = find_child(v, "array") {
        let items = array_items_exec(&v.children[k].children);
        proof {
            reveal_strlit(",");
            assert(vv(items@).skip(0) =~= vv(items@));
            assert(seq![','] =~= ","@);
        }
        let r = join_from(&items, 0, ',');
        assert(r@ == join(array_items(v.children@[k as int].children@), ","@));
        assert(first_child(v.children@, "array"@) == Some(k as int));
        assert(value_text(*v) == join(array_items(v.children@[k as int].children@), ","@));
        return r;
    }
    if let Some(k) = find_child(v, "struct") {
        let items = struct_pairs_exec(&v.children[k].children);
        let mut out: Vec<char> = Vec::new();
        push_str(&mut out, "{");
        let joined = join_from(&items, 0, ',');
        push_chars(&mut out, &joined);
        push_str(&mut out, "}");
        proof {
            reveal_strlit(",");
            assert(vv(items@).skip(0) =~= vv(items@));
            assert(seq![','] =~= ","@);
            assert(joined@ == join(struct_pairs(v.children@[k as int].children@), ","@));
            assert(first_child(v.children@, "struct"@) == Some(k as int));
            assert(out@ =~= "{"@ + joined@ + "}"@);
        }
        return out;
    }
    text_or_exec(v, "")
}

/// The texts of `array_items` for `cs`.
fn array_items_exec(cs: &Vec<XmlNode>) -> (r: Vec<Vec<char>>)
    ensures
        vv(r@) == array_items(cs@),
    decreases cs,
{
    let mut r: Vec<Vec<char>> = Vec::new();
    let mut i: usize = 0;
    while i < cs.len()
        invariant
            i <= cs.len(),
            vv(r@) == array_items(cs@.take(i as int)),
        decreases cs.len() - i,
    {
        proof {
            assert(cs@.take(i + 1).drop_last() =~= cs@.take(i as int));
            assert(cs@.take(i + 1).last() == cs@[i as int]);
        }
        if has_tag(&cs[i], "data") {
            let items = data_items_exec(&cs[i].children);
            append_all(&mut r, items);
        } else {
            assert(vv(r@) =~= vv(r@) + Seq::<Seq<char>>::empty());
        }
        i = i + 1;
    }
    assert(cs@.take(cs.len() as int) =~= cs@);
    r
}

/// The texts of `data_items` for `cs`.
fn data_items_exec(cs: &Vec<XmlNode>) -> (r: Vec<Vec<char>>)
    ensures
        vv(r@) == data_items(cs@),
    decreases cs,
{
    let mut r: Vec<Vec<char>> = Vec::new();
    let mut i: usize = 0;
    while i < cs.len()
        invariant
            i <= cs.len(),
            vv(r@) == data_items(cs@.take(i as int)),
        decreases cs.len() - i,
    {
        proof {
            assert(cs@.take(i + 1).drop_last() =~= cs@.take(i as int));
            assert(cs@.take(i + 1).last() == cs@[i as int]);
        }
        if has_tag(&cs[i], "value") {
            let t = value_text_exec(&cs[i]);
            if t.len() > 0 {
                r.push(t);
                assert(vv(r@) =~= data_items(cs@.take(i as int)) + seq![t@]);
            } else {
                assert(vv(r@) =~= data_items(cs@.take(i as int)) + Seq::<Seq<char>>::empty());
            }
        } else {
            assert(vv(r@) =~= data_items(cs@.take(i as int)) + Seq::<Seq<char>>::empty());
        }
        i = i + 1;
    }
    assert(cs@.take(cs.len() as int) =~= cs@);
    r
}

/// `"name":"text"`.
fn quoted_pair_exec(name: &Vec<char>, text: &Vec<char>) -> (r: Vec<char>)
    ensures
        r@ == quoted_pair(name@, text@),
{
    let mut out: Vec<char> = Vec::new();
    push_str(&mut out, "\"");
    push_chars(&mut out, name);
    push_str(&mut out, "\":\"");
    push_chars(&mut out, text);
    push_str(&mut out, "\"");
    out
}

/// The texts of `struct_pairs` for `cs`.
fn struct_pairs_exec(cs: &Vec<XmlNode>) -> (r: Vec<Vec<char>>)
    ensures
        vv(r@) == struct_pairs(cs@),
    decreases cs,
{
    let mut r: Vec<Vec<char>> = Vec::new();
    let mut i: usize = 0;
    while i < cs.len()
        invariant
            i <= cs.len(),
            vv(r@) == struct_pairs(cs@.take(i as int)),
        decreases cs.len() - i,
    {
        proof {
            assert(cs@.take(i + 1).drop_last() =~= cs@.take(i as int));
            assert(cs@.take(i + 1).last() == cs@[i as int]);
        }
        let m = &cs[i];
        let mut pushed = false;
        if has_tag(m, "member") {
            if let Some(a) = find_child(m, "name") {
                if let Some(b) = find_child(m, "value") {
                    let name = text_or_exec(&m.children[a], "");
                    let text = value_text_exec(&m.children[b]);
                    let pair = quoted_pair_exec(&name, &text);
                    r.push(pair);
                    pushed = true;
                    assert(vv(r@) =~= struct_pairs(cs@.take(i as int)) + seq![pair@]);
                }
            }
        }
        if !pushed {
            assert(vv(r@) =~= struct_pairs(cs@.take(i as int)) + Seq::<Seq<char>>::empty());
        }
        i = i + 1;
    }
    assert(cs@.take(cs.len() as int) =~= cs@);
    r
}


/// The members whose value is read with `complex_field_text`.
pub open spec fn complex_field_name(name: Seq<char>) -> bool {
    name == "home_info"@ || name == "inventory_root"@ || name == "inventory_skeleton"@ || name
        == "buddy_list"@ || name == "login_flags"@ || name == "premium_packages"@ || name
        == "account_level_benefits"@
}

/// The members whose value is read as a list of the texts in its `data` children.
pub open spec fn list_field_name(name: Seq<char>) -> bool {
    name == "inventory_root"@ || name == "inventory_skeleton"@ || name == "buddy_list"@ || name
        == "login_flags"@
}

/// The index of key `k` in an association list.
pub open spec fn assoc_index(l: Seq<(Seq<char>, Seq<char>)>, k: Seq<char>) -> Option<int>
    decreases l.len(),
{
    if l.len() == 0 {
        None
    } else {
        match assoc_index(l.drop_last(), k) {
            Some(i) => Some(i),
            None => if l.last().0 == k {
                Some(l.len() - 1)
            } else {
                None
            },
        }
    }
}

/// `l` with `k` bound to `v`: in place where `k` is bound, appended
/// otherwise.
pub open spec fn assoc_insert(l: Seq<(Seq<char>, Seq<char>)>, k: Seq<char>, v: Seq<char>) -> Seq<
    (Seq<char>, Seq<char>),
> {
    match assoc_index(l, k) {
        Some(i) => l.update(i, (k, v)),
        None => l.push((k, v)),
    }
}

/// The `member` nodes among `cs` that have a `name` child with text and a
/// `value` child, by name: a later member with the same name replaces the
/// value of an earlier one.
pub open spec fn home_members(cs: Seq<XmlNode>) -> Seq<(Seq<char>, Seq<char>)>
    decreases cs.len(),
{
    if cs.len() == 0 {
        Seq::empty()
    } else {
        let rest = home_members(cs.drop_last());
        let m = cs.last();
        let mc = m.children@;
        if m.tag@ == "member"@ && first_child(mc, "name"@) is Some && mc[first_child(mc, "name"@)->0].text is Some
            && first_child(mc, "value"@) is Some {
            assoc_insert(
                rest,
                mc[first_child(mc, "name"@)->0].text->0@,
                value_text(mc[first_child(mc, "value"@)->0]),
            )
        } else {
            rest
        }
    }
}

/// The pairs as `"name":"text"`.
pub open spec fn pair_texts(l: Seq<(Seq<char>, Seq<char>)>) -> Seq<Seq<char>> {
    l.map_values(|p: (Seq<char>, Seq<char>)| quoted_pair(p.0, p.1))
}

/// The text of a member that needs more than `value_text`: `home_info` as
/// the `"name":"text"` pairs of the members directly under its value, in
/// braces; the inventory, buddy and flag lists as the non-empty texts of the
/// values in the `data` nodes directly under it, in brackets; any other as
/// `value_text`.
pub open spec fn complex_field_text(v: XmlNode, name: Seq<char>) -> Seq<char> {
    if name == "home_info"@ {
        "{"@ + join(pair_texts(home_members(v.children@)), ","@) + "}"@
    } else if list_field_name(name) {
        "["@ + join(array_items(v.children@), ","@) + "]"@
    } else {
        value_text(v)
    }
}

/// The text of member `name` with value node `v`.
pub open spec fn field_text(name: Seq<char>, v: XmlNode) -> Seq<char> {
    if complex_field_name(name) {
        complex_field_text(v, name)
    } else {
        value_text(v)
    }
}

/// The `member` nodes among `cs` that have a `name` child with text and a
/// `value` child, as name and text, in order.
pub open spec fn member_fields(cs: Seq<XmlNode>) -> Seq<(Seq<char>, Seq<char>)>
    decreases cs.len(),
{
    if cs.len() == 0 {
        Seq::empty()
    } else {
        let rest = member_fields(cs.drop_last());
        let m = cs.last();
        let mc = m.children@;
        if m.tag@ == "member"@ && first_child(mc, "name"@) is Some && mc[first_child(mc, "name"@)->0].text is Some
            && first_child(mc, "value"@) is Some {
            let name = mc[first_child(mc, "name"@)->0].text->0@;
            rest.push((name, field_text(name, mc[first_child(mc, "value"@)->0])))
        } else {
            rest
        }
    }
}

/// The `methodResponse` element: the root itself, or its first child of
/// that name.
pub open spec fn method_response(root: XmlNode) -> Option<XmlNode> {
    if root.tag@ == "methodResponse"@ {
        Some(root)
    } else {
        child(root, "methodResponse"@)
    }
}

/// The members of the login reply whose root element is `root`, or why
/// there are none: no `methodResponse`; a `fault`; or a missing `params`,
/// `param`, `value` or `struct` on the way down.
pub open spec fn login_fields_of(root: XmlNode) -> Result<Seq<(Seq<char>, Seq<char>)>, Seq<char>> {
    match method_response(root) {
        None => Err("No methodResponse found"@),
        Some(mr) => if child(mr, "fault"@) is Some {
            Err("Login fault response received"@)
        } else {
            match child(mr, "params"@) {
                None => Err("No params found in response"@),
                Some(ps) => match child(ps, "param"@) {
                    None => Err("No param found"@),
                    Some(p) => match child(p, "value"@) {
                        None => Err("No value found"@),
                        Some(v) => match child(v, "struct"@) {
                            None => Err("No struct found in response"@),
                            Some(st) => Ok(member_fields(st.children@)),
                        },
                    },
                },
            }
        },
    }
}

/// The members of the login reply in `xml`, or why there are none; text
/// that is not XML is refused first.
pub open spec fn login_fields_spec(xml: Seq<char>) -> Result<Seq<(Seq<char>, Seq<char>)>, Seq<char>> {
    match xml_document(xml) {
        None => Err("Failed to parse XML response"@),
        Some(root) => login_fields_of(root),
    }
}

/// The model of a list of text pairs.
pub open spec fn pairs_view(v: Seq<(String, String)>) -> Seq<(Seq<char>, Seq<char>)> {
    v.map_values(|p: (String, String)| (p.0@, p.1@))
}

/// The model of a list of character-vector pairs.
pub open spec fn vpairs_view(v: Seq<(Vec<char>, Vec<char>)>) -> Seq<(Seq<char>, Seq<char>)> {
    v.map_values(|p: (Vec<char>, Vec<char>)| (p.0@, p.1@))
}

/// Binds `k` to `v` in the association list `l`.
fn assoc_insert_exec(l: &mut Vec<(Vec<char>, Vec<char>)>, k: Vec<char>, v: Vec<char>)
    ensures
        vpairs_view(final(l)@) == assoc_insert(vpairs_view(old(l)@), k@, v@),
{
    let mut found: Option<usize> = None;
    let mut i: usize = 0;
    while i < l.len()
        invariant
            i <= l.len(),
            l@ == old(l)@,
            match found {
                Some(j) => assoc_index(vpairs_view(l@).take(i as int), k@) == Some(j as int) && j < i,
                None => assoc_index(vpairs_view(l@).take(i as int), k@) is None,
            },
        decreases l.len() - i,
    {
        proof {
            let t = vpairs_view(l@).take(i as int);
            let t1 = vpairs_view(l@).take(i + 1);
            assert(t1.drop_last() =~= t);
        }
        if found.is_none() && chars_eq(&l[i].0, &k) {
            found = Some(i);
        }
        i = i + 1;
    }
    assert(vpairs_view(l@).take(l.len() as int) =~= vpairs_view(l@));
    match found {
        Some(j) => {
            l.set(j, (k, v));
            assert(vpairs_view(l@) =~= vpairs_view(old(l)@).update(j as int, (k@, v@)));
        },
        None => {
            l.push((k, v));
            assert(vpairs_view(l@) =~= vpairs_view(old(l)@).push((k@, v@)));
        },
    }
}

/// The text of the `home_info` member whose value node is `v`.
fn home_info_text(v: &XmlNode) -> (r: Vec<char>)
    ensures
        r@ == "{"@ + join(pair_texts(home_members(v.children@)), ","@) + "}"@,
{
    let cs = &v.children;
    let mut l: Vec<(Vec<char>, Vec<char>)> = Vec::new();
    let mut i: usize = 0;
    while i < cs.len()
        invariant
            i <= cs.len(),
            cs == &v.children,
            vpairs_view(l@) == home_members(cs@.take(i as int)),
        decreases cs.len() - i,
    {
        proof {
            assert(cs@.take(i + 1).drop_last() =~= cs@.take(i as int));
            assert(cs@.take(i + 1).last() == cs@[i as int]);
        }
        let m = &cs[i];
        if has_tag(m, "member") {
            if let Some(a) = find_child(m, "name") {
                if let Some(t) = &m.children[a].text {
                    if let Some(b) = find_child(m, "value") {
                        let name = chars_of(t.as_str());
                        let text = value_text_exec(&m.children[b]);
                        assoc_insert_exec(&mut l, name, text);
                    }
                }
            }
        }
        i = i + 1;
    }
    assert(cs@.take(cs.len() as int) =~= cs@);
    let mut texts: Vec<Vec<char>> = Vec::new();
    let mut j: usize = 0;
    while j < l.len()
        invariant
            j <= l.len(),
            vv(texts@) == pair_texts(vpairs_view(l@).take(j as int)),
        decreases l.len() - j,
    {
        let q = quoted_pair_exec(&l[j].0, &l[j].1);
        let ghost before = texts@;
        texts.push(q);
        proof {
            let pv = vpairs_view(l@);
            assert(pv[j as int] == (l@[j as int].0@, l@[j as int].1@));
            assert(vv(texts@) =~= vv(before).push(q@));
            assert(pv.take(j + 1) =~= pv.take(j as int).push(pv[j as int]));
            assert(pair_texts(pv.take(j + 1)) =~= pair_texts(pv.take(j as int)).push(quoted_pair(pv[j as int].0, pv[j as int].1)));
        }
        j = j + 1;
    }
    assert(vpairs_view(l@).take(l.len() as int) =~= vpairs_view(l@));
    let joined = join_from(&texts, 0, ',');
    let mut out: Vec<char> = Vec::new();
    push_str(&mut out, "{");
    push_chars(&mut out, &joined);
    push_str(&mut out, "}");
    proof {
        reveal_strlit(",");
        assert(vv(texts@).skip(0) =~= vv(texts@));
        assert(seq![','] =~= ","@);
        assert(out@ =~= "{"@ + joined@ + "}"@);
    }
    out
}

/// The text of member `name` whose value node is `v`, read as a complex field.
fn complex_field_text_exec(v: &XmlNode, name: &str) -> (r: Vec<char>)
    ensures
        r@ == complex_field_text(*v, name@),
{
    if crate::text::str_eq(name, "home_info") {
        return home_info_text(v);
    }
    if crate::text::str_eq(name, "inventory_root") || crate::text::str_eq(name, "inventory_skeleton")
        || crate::text::str_eq(name, "buddy_list") || crate::text::str_eq(name, "login_flags") {
        let items = array_items_exec(&v.children);
        let joined = join_from(&items, 0, ',');
        let mut out: Vec<char> = Vec::new();
        push_str(&mut out, "[");
        push_chars(&mut out, &joined);
        push_str(&mut out, "]");
        proof {
            reveal_strlit(",");
            assert(vv(items@).skip(0) =~= vv(items@));
            assert(seq![','] =~= ","@);
            assert(out@ =~= "["@ + joined@ + "]"@);
        }
        return out;
    }
    value_text_exec(v)
}

/// Whether member `name` is read as a complex field.
fn is_complex_field(name: &str) -> (b: bool)
    ensures
        b == complex_field_name(name@),
{
    crate::text::str_eq(name, "home_info") || crate::text::str_eq(name, "inventory_root")
        || crate::text::str_eq(name, "inventory_skeleton") || crate::text::str_eq(name, "buddy_list")
        || crate::text::str_eq(name, "login_flags") || crate::text::str_eq(name, "premium_packages")
        || crate::text::str_eq(name, "account_level_benefits")
}

/// The members among `cs` as name and text.
fn member_fields_exec(cs: &Vec<XmlNode>) -> (r: Vec<(String, String)>)
    ensures
        pairs_view(r@) == member_fields(cs@),
{
    let mut r: Vec<(String, String)> = Vec::new();
    let mut i: usize = 0;
    while i < cs.len()
        invariant
            i <= cs.len(),
            pairs_view(r@) == member_fields(cs@.take(i as int)),
        decreases cs.len() - i,
    {
        proof {
            assert(cs@.take(i + 1).drop_last() =~= cs@.take(i as int));
            assert(cs@.take(i + 1).last() == cs@[i as int]);
        }
        let m = &cs[i];
        if has_tag(m, "member") {
            if let Some(a) = find_child(m, "name") {
                if let Some(t) = &m.children[a].text {
                    if let Some(b) = find_child(m, "value") {
                        let text = if is_complex_field(t.as_str()) {
                            complex_field_text_exec(&m.children[b], t.as_str())
                        } else {
                            value_text_exec(&m.children[b])
                        };
                        let name = string_of(&chars_of(t.as_str()));
                        let ghost before = r@;
                        r.push((name, string_of(&text)));
                        assert(pairs_view(r@) =~= pairs_view(before).push((name@, text@)));
                    }
                }
            }
        }
        i = i + 1;
    }
    assert(cs@.take(cs.len() as int) =~= cs@);
    r
}

/// The first child of `n` named `tag`, or `err` as the error.
fn child_or<'a>(n: &'a XmlNode, tag: &str, err: &str) -> (r: Result<&'a XmlNode, String>)
    ensures
        match r {
            Ok(c) => child(*n, tag@) == Some(*c),
            Err(e) => child(*n, tag@) is None && e@ == err@,
        },
{
    match find_child(n, tag) {
        Some(k) => Ok(&n.children[k]),
        None => Err(String::from_str(err)),
    }
}

/// The text of the XML-RPC value node `value_node`.
pub fn extract_value_text(value_node: &XmlNode) -> (r: String)
    ensures
        r@ == value_text(*value_node),
{
    string_of(&value_text_exec(value_node))
}

/// The text of member `field_name` whose value node is `value_node`, read as
/// a complex field; reading never fails.
pub fn parse_complex_field(value_node: &XmlNode, field_name: &str) -> (r: Result<String, String>)
    ensures
        r matches Ok(t) && t@ == complex_field_text(*value_node, field_name@),
{
    Ok(string_of(&complex_field_text_exec(value_node, field_name)))
}

/// The members of the login reply whose root element is `root`, as name
/// and text.
pub fn login_fields_from_document(root: &XmlNode) -> (r: Result<Vec<(String, String)>, String>)
    ensures
        match r {
            Ok(fields) => login_fields_of(*root) == Ok::<Seq<(Seq<char>, Seq<char>)>, Seq<char>>(
                pairs_view(fields@),
            ),
            Err(e) => login_fields_of(*root) == Err::<Seq<(Seq<char>, Seq<char>)>, Seq<char>>(e@),
        },
{
    let mr: &XmlNode = if has_tag(root, "methodResponse") {
        root
    } else {
        child_or(root, "methodResponse", "No methodResponse found")?
    };
    if find_child(mr, "fault").is_some() {
        return Err(String::from_str("Login fault response received"));
    }
    let params = child_or(mr, "params", "No params found in response")?;
    let param = child_or(params, "param", "No param found")?;
    let value = child_or(param, "value", "No value found")?;
    let st = child_or(value, "struct", "No struct found in response")?;
    Ok(member_fields_exec(&st.children))
}

/// The members of the login server's XML-RPC reply `xml`, as name and text.
pub fn login_response_fields(xml: &str) -> (r: Result<Vec<(String, String)>, String>)
    ensures
        match r {
            Ok(fields) => login_fields_spec(xml@) == Ok::<Seq<(Seq<char>, Seq<char>)>, Seq<char>>(
                pairs_view(fields@),
            ),
            Err(e) => login_fields_spec(xml@) == Err::<Seq<(Seq<char>, Seq<char>)>, Seq<char>>(e@),
        },
{
    match parse_xml_document(xml) {
        Some(root) => login_fields_from_document(&root),
        None => Err(String::from_str("Failed to parse XML response")),
    }
}

} // verus!
