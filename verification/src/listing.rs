use vstd::prelude::*;

use vstd::seq_lib::to_multiset_insert;
use vstd::utf8::encode_utf8;

use crate::naming::spec_last_component;
use crate::text::{rfind_char, spec_decimal, spec_rfind, substring_copy, to_decimal};

verus! {

/// Byte-wise lexicographic order, the order `sort` on strings uses.
pub open spec fn spec_le_bytes(a: Seq<u8>, b: Seq<u8>) -> bool
    decreases a.len(),
{
    if a.len() == 0 {
        true
    } else if b.len() == 0 {
        false
    } else if a[0] < b[0] {
        true
    } else if a[0] > b[0] {
        false
    } else {
        spec_le_bytes(a.drop_first(), b.drop_first())
    }
}

/// Texts ordered by their UTF-8 bytes.
pub open spec fn spec_text_le(a: Seq<char>, b: Seq<char>) -> bool {
    spec_le_bytes(encode_utf8(a), encode_utf8(b))
}

pub proof fn lemma_le_bytes_total(a: Seq<u8>, b: Seq<u8>)
    ensures
        spec_le_bytes(a, b) || spec_le_bytes(b, a),
    decreases a.len(),
{
    if a.len() > 0 && b.len() > 0 && a[0] == b[0] {
        lemma_le_bytes_total(a.drop_first(), b.drop_first());
    }
}

pub proof fn lemma_le_bytes_trans(a: Seq<u8>, b: Seq<u8>, c: Seq<u8>)
    requires
        spec_le_bytes(a, b),
        spec_le_bytes(b, c),
    ensures
        spec_le_bytes(a, c),
    decreases a.len(),
{
    if a.len() > 0 && c.len() > 0 {
        if a[0] == c[0] {
            if b.len() > 0 && a[0] == b[0] && b[0] == c[0] {
                lemma_le_bytes_trans(a.drop_first(), b.drop_first(), c.drop_first());
            }
        }
    }
}

/// Equal prefixes do not decide the order: it is settled past them.
proof fn lemma_le_bytes_skip(a: Seq<u8>, b: Seq<u8>, k: int)
    requires
        0 <= k <= a.len(),
        k <= b.len(),
        forall|j: int| 0 <= j < k ==> a[j] == b[j],
    ensures
        spec_le_bytes(a, b) == spec_le_bytes(a.skip(k), b.skip(k)),
    decreases k,
{
    if k > 0 {
        assert(a[0] == b[0]);
        assert forall|j: int| 0 <= j < k - 1 implies a.drop_first()[j] == b.drop_first()[j] by {
            assert(a[j + 1] == b[j + 1]);
        }
        lemma_le_bytes_skip(a.drop_first(), b.drop_first(), k - 1);
        assert(a.drop_first().skip(k - 1) =~= a.skip(k));
        assert(b.drop_first().skip(k - 1) =~= b.skip(k));
        assert(spec_le_bytes(a, b) == spec_le_bytes(a.drop_first(), b.drop_first()));
        assert(spec_le_bytes(a.drop_first(), b.drop_first()) == spec_le_bytes(
            a.skip(k),
            b.skip(k),
        ));
    } else {
        assert(a.skip(0) =~= a);
        assert(b.skip(0) =~= b);
    }
}

/// Byte-wise order on string slices.
pub fn str_le(a: &str, b: &str) -> (r: bool)
    ensures
        r == spec_text_le(a@, b@),
{
    let ab = a.as_bytes();
    let bb = b.as_bytes();
    let na = ab.len();
    let nb = bb.len();
    let mut i: usize = 0;
    loop
        invariant
            i <= na,
            i <= nb,
            na == ab@.len(),
            nb == bb@.len(),
            ab@ == encode_utf8(a@),
            bb@ == encode_utf8(b@),
            forall|j: int| 0 <= j < i ==> ab@[j] == bb@[j],
        decreases na - i,
    {
        proof {
            lemma_le_bytes_skip(ab@, bb@, i as int);
        }
        if i == na {
            proof {
                assert(ab@.skip(i as int).len() == 0);
            }
            return true;
        }
        if i == nb {
            proof {
                assert(bb@.skip(i as int).len() == 0);
                assert(ab@.skip(i as int).len() > 0);
            }
            return false;
        }
        let x = ab[i];
        let y = bb[i];
        proof {
            assert(ab@.skip(i as int)[0] == ab@[i as int]);
            assert(bb@.skip(i as int)[0] == bb@[i as int]);
        }
        if x < y {
            return true;
        }
        if x > y {
            return false;
        }
        i += 1;
    }
}

/// Does the path name a CSV file? The extension is what follows the last dot
/// of the last component, and a leading dot names a hidden file, not an
/// extension.
pub open spec fn spec_has_csv_extension(p: Seq<char>) -> bool {
    let comp = spec_last_component(p);
    let d = spec_rfind(comp, '.');
    d > 0 && comp.subrange(d + 1, comp.len() as int) == "csv"@
}

pub fn has_csv_extension(p: &str) -> (r: bool)
    ensures
        r == spec_has_csv_extension(p@),
{
    let n = p.unicode_len();
    proof {
        crate::text::lemma_rfind_bounds(p@, '/');
    }
    let start: usize = match rfind_char(p, '/') {
        Some(j) => j + 1,
        None => 0,
    };
    let component = substring_copy(p, start, n);
    proof {
        crate::text::lemma_rfind_bounds(component@, '.');
    }
    let clen = component.unicode_len();
    match rfind_char(component.as_str(), '.') {
        Some(d) => {
            if d == 0 {
                return false;
            }
            let ext = substring_copy(component.as_str(), d + 1, clen);
            crate::text::str_eq(ext.as_str(), "csv")
        },
        None => false,
    }
}

/// The views of a collection of names.
pub open spec fn views_of_names(s: Seq<String>) -> Seq<Seq<char>> {
    s.map_values(|x: String| x@)
}

/// The sub-collection of names that carry the CSV extension, order kept.
pub open spec fn spec_csv_only(s: Seq<Seq<char>>) -> Seq<Seq<char>>
    decreases s.len(),
{
    if s.len() == 0 {
        Seq::<Seq<char>>::empty()
    } else {
        spec_csv_only(s.drop_last()) + (if spec_has_csv_extension(s.last()) {
            seq![s.last()]
        } else {
            Seq::<Seq<char>>::empty()
        })
    }
}

/// Neighbouring order of the produced listing: ascending for definitions,
/// descending for executions (so that timestamp-suffixed names surface
/// most-recent-first).
pub open spec fn spec_ordered(a: Seq<char>, b: Seq<char>, descending: bool) -> bool {
    if descending {
        spec_text_le(b, a)
    } else {
        spec_text_le(a, b)
    }
}

pub open spec fn spec_sorted_names(vs: Seq<Seq<char>>, descending: bool) -> bool {
    forall|i: int, j: int| 0 <= i < j < vs.len() ==> spec_ordered(vs[i], vs[j], descending)
}

/// Keeps exactly the CSV-named entries and orders them: ascending when
/// `descending` is false, descending otherwise. The result holds the same
/// names, as often, as the CSV-named part of the input.
pub fn select_csv_sorted(names: &Vec<String>, descending: bool) -> (r: Vec<String>)
    ensures
        views_of_names(r@).to_multiset() == spec_csv_only(views_of_names(names@)).to_multiset(),
        spec_sorted_names(views_of_names(r@), descending),
{
    broadcast use vstd::seq_lib::group_to_multiset_ensures;

    let mut out: Vec<String> = Vec::new();
    proof {
        assert(views_of_names(out@) =~= spec_csv_only(views_of_names(names@.take(0))));
    }
    let mut k: usize = 0;
    while k < names.len()
        invariant
            k <= names@.len(),
            views_of_names(out@).to_multiset() == spec_csv_only(
                views_of_names(names@.take(k as int)),
            ).to_multiset(),
            spec_sorted_names(views_of_names(out@), descending),
        decreases names@.len() - k,
    {
        proof {
            assert(views_of_names(names@.take(k + 1)).drop_last()
                =~= views_of_names(names@.take(k as int)));
            assert(views_of_names(names@.take(k + 1)).last() == names@[k as int]@);
        }
        let name = &names[k];
        if has_csv_extension(name.as_str()) {
            let mut p: usize = 0;
            while p < out.len() && str_le_dir(&out[p], name, descending)
                invariant
                    p <= out@.len(),
                    forall|i: int|
                        0 <= i < p ==> spec_ordered(
                            views_of_names(out@)[i],
                            name@,
                            descending,
                        ),
                    spec_sorted_names(views_of_names(out@), descending),
                decreases out@.len() - p,
            {
                p += 1;
            }
            proof {
                if p < out@.len() {
                    lemma_le_bytes_total(encode_utf8(out@[p as int]@), encode_utf8(name@));
                }
            }
            let ghost old_out = out@;
            out.insert(p, name.clone());
            proof {
                broadcast use vstd::seq_lib::group_to_multiset_ensures;

                assert(views_of_names(out@)
                    =~= views_of_names(old_out).insert(p as int, names@[k as int]@));
                to_multiset_insert(views_of_names(old_out), p as int, names@[k as int]@);
                assert(spec_csv_only(views_of_names(names@.take(k + 1)))
                    =~= spec_csv_only(views_of_names(names@.take(k as int))).push(
                        names@[k as int]@,
                    ));
                assert(views_of_names(out@).to_multiset()
                    == spec_csv_only(views_of_names(names@.take(k + 1))).to_multiset());
                assert forall|i: int, j: int| 0 <= i < j < views_of_names(out@).len()
                    implies spec_ordered(
                        views_of_names(out@)[i],
                        views_of_names(out@)[j],
                        descending,
                    ) by {
                    let vs = views_of_names(old_out);
                    let x = names@[k as int]@;
                    if j < p {
                        assert(spec_ordered(vs[i], vs[j], descending));
                    } else if j == p {
                        if i < p {
                            assert(spec_ordered(vs[i], x, descending));
                        }
                    } else {
                        if i < p {
                            assert(spec_ordered(vs[i], vs[j - 1], descending));
                        } else if i == p {
                            // x stands just before the first entry it does
                            // not follow; order passes through that entry.
                            assert(spec_ordered(x, vs[p as int], descending));
                            if j - 1 > p {
                                assert(spec_ordered(vs[p as int], vs[j - 1], descending));
                                if descending {
                                    lemma_le_bytes_trans(
                                        encode_utf8(vs[j - 1]),
                                        encode_utf8(vs[p as int]),
                                        encode_utf8(x),
                                    );
                                } else {
                                    lemma_le_bytes_trans(
                                        encode_utf8(x),
                                        encode_utf8(vs[p as int]),
                                        encode_utf8(vs[j - 1]),
                                    );
                                }
                            }
                        } else {
                            assert(spec_ordered(vs[i - 1], vs[j - 1], descending));
                        }
                    }
                }
            }
        } else {
            proof {
                assert(spec_csv_only(views_of_names(names@.take(k + 1)))
                    =~= spec_csv_only(views_of_names(names@.take(k as int))));
            }
        }
        k += 1;
    }
    proof {
        assert(names@.take(names@.len() as int) =~= names@);
    }
    out
}

/// Order test in the requested direction.
fn str_le_dir(a: &String, b: &String, descending: bool) -> (r: bool)
    ensures
        r == spec_ordered(a@, b@, descending),
{
    if descending {
        str_le(b.as_str(), a.as_str())
    } else {
        str_le(a.as_str(), b.as_str())
    }
}

/// A numbered entry of a printed list: `<n>: <text>`.
pub open spec fn spec_numbered_label(n: nat, s: Seq<char>) -> Seq<char> {
    spec_decimal(n) + ": "@ + s
}

pub fn numbered_label(n: usize, s: &str) -> (r: String)
    ensures
        r@ == spec_numbered_label(n as nat, s@),
{
    let mut out = to_decimal(n);
    out.append(": ");
    out.append(s);
    proof {
        assert(out@ =~= spec_numbered_label(n as nat, s@));
    }
    out
}

/// The numbered entries of a group, first entry numbered 1.
pub open spec fn spec_numbered_lines(names: Seq<Seq<char>>) -> Seq<Seq<char>>
    decreases names.len(),
{
    if names.len() == 0 {
        Seq::<Seq<char>>::empty()
    } else {
        spec_numbered_lines(names.drop_last()).push(
            spec_numbered_label(names.len() as nat, names.last()),
        )
    }
}

/// One labeled group of the listing: its header and numbered entries, or the
/// group's own "none available" message when it is empty.
pub open spec fn spec_group_lines(
    names: Seq<Seq<char>>,
    header: Seq<char>,
    empty_msg: Seq<char>,
) -> Seq<Seq<char>> {
    if names.len() == 0 {
        seq![empty_msg]
    } else {
        seq![header] + spec_numbered_lines(names)
    }
}

/// The whole listing: the definition group, then the execution group, each
/// reporting independently when it is empty.
pub open spec fn spec_list_lines(defs: Seq<Seq<char>>, execs: Seq<Seq<char>>) -> Seq<Seq<char>> {
    spec_group_lines(
        defs,
        "Archivos de definición disponibles:"@,
        "No hay archivos de definición disponibles."@,
    ) + spec_group_lines(
        execs,
        "Archivos de ejecución disponibles:"@,
        "No hay archivos de ejecución disponibles."@,
    )
}

fn group_lines(names: &Vec<String>, header: &str, empty_msg: &str) -> (r: Vec<String>)
    ensures
        views_of_names(r@) == spec_group_lines(views_of_names(names@), header@, empty_msg@),
{
    let mut out: Vec<String> = Vec::new();
    if names.len() == 0 {
        out.push(empty_msg.to_owned());
        proof {
            assert(views_of_names(out@)
                =~= spec_group_lines(views_of_names(names@), header@, empty_msg@));
        }
        return out;
    }
    out.push(header.to_owned());
    let mut i: usize = 0;
    while i < names.len()
        invariant
            i <= names@.len(),
            names@.len() > 0,
            views_of_names(out@) =~= seq![header@] + spec_numbered_lines(
                views_of_names(names@.take(i as int)),
            ),
        decreases names@.len() - i,
    {
        proof {
            assert(views_of_names(names@.take(i + 1)).drop_last()
                =~= views_of_names(names@.take(i as int)));
            assert(views_of_names(names@.take(i + 1)).last() == names@[i as int]@);
            assert(views_of_names(names@.take(i + 1)).len() == i + 1);
        }
        let label = numbered_label(i + 1, names[i].as_str());
        let ghost prev_out = out@;
        let ghost label_view = label@;
        out.push(label);
        proof {
            assert(views_of_names(out@) =~= views_of_names(prev_out).push(label_view));
            assert(label_view == spec_numbered_label(
                views_of_names(names@.take(i + 1)).len() as nat,
                views_of_names(names@.take(i + 1)).last(),
            ));
            assert(spec_numbered_lines(views_of_names(names@.take(i + 1)))
                == spec_numbered_lines(views_of_names(names@.take(i as int))).push(label_view));
            assert(views_of_names(out@) =~= seq![header@] + spec_numbered_lines(
                views_of_names(names@.take(i + 1)),
            ));
        }
        i += 1;
    }
    proof {
        assert(names@.take(names@.len() as int) =~= names@);
        assert(views_of_names(out@)
            =~= spec_group_lines(views_of_names(names@), header@, empty_msg@));
    }
    out
}

/// Renders the list workflow's output lines: two labeled, numbered groups,
/// each independently reporting "none available" when it has no files.
pub fn list_lines(definitions: &Vec<String>, executions: &Vec<String>) -> (r: Vec<String>)
    ensures
        views_of_names(r@) == spec_list_lines(
            views_of_names(definitions@),
            views_of_names(executions@),
        ),
{
    let mut out = group_lines(
        definitions,
        "Archivos de definición disponibles:",
        "No hay archivos de definición disponibles.",
    );
    let mut execs = group_lines(
        executions,
        "Archivos de ejecución disponibles:",
        "No hay archivos de ejecución disponibles.",
    );
    let ghost first_part = out@;
    out.append(&mut execs);
    proof {
        assert(views_of_names(out@) =~= spec_list_lines(
            views_of_names(definitions@),
            views_of_names(executions@),
        ));
    }
    out
}

} // verus!
