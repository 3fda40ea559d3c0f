//! Configuration interfaces found on the bus, as plain values.
use vstd::prelude::*;

use crate::text::{hex4, push_hex4};
use crate::{VENDOR_USAGE_PAGES, VID_SONIX};

verus! {

/// A configuration interface we could open.
#[derive(Debug, Clone, PartialEq, Eq)]
pub struct Candidate {
    pub path: String,
    pub vid: u16,
    pub pid: u16,
    pub usage_page: u16,
    pub product: String,
}

/// How an interface is named to the user: its product string, or
/// `VVVV:PPPP` in upper-case hex when the device reports none.
pub open spec fn display_text(vid: u16, pid: u16, product: Seq<char>) -> Seq<char> {
    if product.len() == 0 {
        hex4(vid) + seq![':'] + hex4(pid)
    } else {
        product
    }
}

impl Candidate {
    pub fn display_name(&self) -> (s: String)
        ensures
            s@ == display_text(self.vid, self.pid, self.product@),
    {
        if self.product.as_str().is_empty() {
            let mut s = String::new();
            push_hex4(&mut s, self.vid);
            s.append(":");
            push_hex4(&mut s, self.pid);
            proof {
                reveal_strlit(":");
            }
            assert(s@ =~= display_text(self.vid, self.pid, self.product@));
            s
        } else {
            self.product.clone()
        }
    }
}

/// Whether an interface with these IDs is a SONiX vendor configuration
/// collection rather than, say, the boot-keyboard interface of the same
/// device.
pub open spec fn configuration_interface(vid: u16, usage_page: u16) -> bool {
    vid == VID_SONIX && VENDOR_USAGE_PAGES@.contains(usage_page)
}

/// Whether an interface may be opened for configuration.
pub fn is_configuration_interface(vid: u16, usage_page: u16) -> (b: bool)
    ensures
        b == configuration_interface(vid, usage_page),
{
    if vid != VID_SONIX {
        return false;
    }
    let mut i: usize = 0;
    while i < VENDOR_USAGE_PAGES.len()
        invariant
            vid == VID_SONIX,
            i <= VENDOR_USAGE_PAGES@.len(),
            forall|k: int| 0 <= k < i ==> VENDOR_USAGE_PAGES@[k] != usage_page,
        decreases VENDOR_USAGE_PAGES@.len() - i,
    {
        if VENDOR_USAGE_PAGES[i] == usage_page {
            assert(VENDOR_USAGE_PAGES@[i as int] == usage_page);
            assert(VENDOR_USAGE_PAGES@.contains(usage_page));
            return true;
        }
        i = i + 1;
    }
    false
}


/// Whether text `a` sorts before text `b`: character by character, a
/// proper prefix first. This is the order `str` sorts in, since UTF-8 keeps
/// the order of the characters it encodes.
pub open spec fn text_before(a: Seq<char>, b: Seq<char>) -> bool
    decreases a.len(),
{
    if a.len() == 0 {
        b.len() > 0
    } else if b.len() == 0 {
        false
    } else if a[0] != b[0] {
        a[0] < b[0]
    } else {
        text_before(a.drop_first(), b.drop_first())
    }
}

/// No text sorts before itself.
pub proof fn lemma_text_before_irreflexive(a: Seq<char>)
    ensures
        !text_before(a, a),
    decreases a.len(),
{
    if a.len() > 0 {
        lemma_text_before_irreflexive(a.drop_first());
    }
}

/// Sorting before is transitive.
pub proof fn lemma_text_before_transitive(a: Seq<char>, b: Seq<char>, c: Seq<char>)
    requires
        text_before(a, b),
        text_before(b, c),
    ensures
        text_before(a, c),
    decreases a.len(),
{
    if a.len() > 0 && b.len() > 0 && c.len() > 0 {
        if a[0] == b[0] && b[0] == c[0] {
            lemma_text_before_transitive(a.drop_first(), b.drop_first(), c.drop_first());
        }
    }
}

/// Of two different texts, one sorts before the other.
pub proof fn lemma_text_before_total(a: Seq<char>, b: Seq<char>)
    requires
        a != b,
    ensures
        text_before(a, b) || text_before(b, a),
    decreases a.len(),
{
    if a.len() > 0 && b.len() > 0 && a[0] == b[0] {
        if a.drop_first() == b.drop_first() {
            assert(a =~= seq![a[0]] + a.drop_first());
            assert(b =~= seq![b[0]] + b.drop_first());
        }
        lemma_text_before_total(a.drop_first(), b.drop_first());
    } else if a.len() == 0 && b.len() == 0 {
        assert(a =~= b);
    }
}

/// Whether `a` sorts before `b`.
pub fn text_sorts_before(a: &str, b: &str) -> (r: bool)
    ensures
        r == text_before(a@, b@),
{
    let na = a.unicode_len();
    let nb = b.unicode_len();
    let mut i: usize = 0;
    assert(a@.skip(0) =~= a@ && b@.skip(0) =~= b@);
    while i < na && i < nb
        invariant
            na == a@.len(),
            nb == b@.len(),
            i <= na,
            i <= nb,
            a@.take(i as int) == b@.take(i as int),
            text_before(a@, b@) == text_before(a@.skip(i as int), b@.skip(i as int)),
        decreases na - i,
    {
        let ca = a.get_char(i);
        let cb = b.get_char(i);
        if ca != cb {
            assert(a@.skip(i as int)[0] == ca && b@.skip(i as int)[0] == cb);
            return ca < cb;
        }
        assert(a@.skip(i as int).drop_first() =~= a@.skip(i + 1));
        assert(b@.skip(i as int).drop_first() =~= b@.skip(i + 1));
        assert(a@.take(i + 1) =~= a@.take(i as int).push(ca));
        assert(b@.take(i + 1) =~= b@.take(i as int).push(cb));
        i = i + 1;
    }
    i < nb
}

/// Whether an interface may be opened for configuration.
pub open spec fn usable(c: Candidate) -> bool {
    configuration_interface(c.vid, c.usage_page)
}

/// The first usable interface in `found` with path `p`, if any.
pub open spec fn first_usable(found: Seq<Candidate>, p: Seq<char>) -> Option<Candidate>
    decreases found.len(),
{
    if found.len() == 0 {
        None
    } else {
        match first_usable(found.drop_last(), p) {
            Some(c) => Some(c),
            None => if usable(found.last()) && found.last().path@ == p {
                Some(found.last())
            } else {
                None
            },
        }
    }
}

/// Whether interfaces come in strictly increasing order of path.
pub open spec fn sorted_by_path(s: Seq<Candidate>) -> bool {
    forall|i: int, j: int|
        0 <= i < j < s.len() ==> text_before(#[trigger] s[i].path@, #[trigger] s[j].path@)
}

/// The interface `first_usable` finds is in the list, usable, and has the
/// path asked for; it finds one whenever the list has one.
pub proof fn lemma_first_usable(found: Seq<Candidate>, p: Seq<char>)
    ensures
        first_usable(found, p) matches Some(c) ==> found.contains(c) && usable(c) && c.path@ == p,
        (exists|k: int| 0 <= k < found.len() && usable(#[trigger] found[k]) && found[k].path@ == p)
            ==> first_usable(found, p) is Some,
    decreases found.len(),
{
    if found.len() > 0 {
        let rest = found.drop_last();
        lemma_first_usable(rest, p);
        if let Some(c) = first_usable(rest, p) {
            let k = choose|k: int| 0 <= k < rest.len() && rest[k] == c;
            assert(found[k] == c);
        }
        if exists|k: int| 0 <= k < found.len() && usable(#[trigger] found[k]) && found[k].path@
            == p {
            let k = choose|k: int|
                0 <= k < found.len() && usable(#[trigger] found[k]) && found[k].path@ == p;
            if k < rest.len() {
                assert(rest[k] == found[k]);
            }
        }
        if let Some(c) = first_usable(found, p) {
            if first_usable(rest, p) is None {
                assert(found[found.len() - 1] == c);
            }
        }
    }
}

/// A copy of a candidate, field for field.
pub fn copy_candidate(c: &Candidate) -> (d: Candidate)
    ensures
        d == *c,
{
    Candidate {
        path: c.path.clone(),
        vid: c.vid,
        pid: c.pid,
        usage_page: c.usage_page,
        product: c.product.clone(),
    }
}

/// The configuration interfaces among everything found on the bus, sorted
/// by path, one per path: where a path turns up twice, the first report of
/// it is kept.
pub fn usable_interfaces(found: &Vec<Candidate>) -> (out: Vec<Candidate>)
    ensures
        sorted_by_path(out@),
        forall|i: int| 0 <= i < out@.len() ==> usable(#[trigger] out@[i]),
        forall|i: int|
            0 <= i < out@.len() ==> first_usable(found@, (#[trigger] out@[i]).path@) == Some(
                out@[i],
            ),
        forall|k: int|
            0 <= k < found@.len() && usable(#[trigger] found@[k]) ==> exists|i: int|
                0 <= i < out@.len() && (#[trigger] out@[i]).path@ == found@[k].path@,
{
    let mut out: Vec<Candidate> = Vec::new();
    let mut j: usize = 0;
    while j < found.len()
        invariant
            j <= found@.len(),
            sorted_by_path(out@),
            forall|i: int|
                0 <= i < out@.len() ==> first_usable(found@.take(j as int), (#[trigger] out@[i]).path@)
                    == Some(out@[i]),
            forall|k: int|
                0 <= k < j && usable(#[trigger] found@[k]) ==> exists|i: int|
                    0 <= i < out@.len() && (#[trigger] out@[i]).path@ == found@[k].path@,
        decreases found@.len() - j,
    {
        let c = &found[j];
        let ghost before = found@.take(j as int);
        let ghost now = found@.take(j + 1);
        assert(now.drop_last() =~= before);
        assert(now.last() == *c);
        if is_configuration_interface(c.vid, c.usage_page) {
            // Find where the path belongs, or that it is already there.
            let mut i: usize = 0;
            let mut dup = false;
            while i < out.len()
                invariant_except_break
                    !dup,
                invariant
                    i <= out@.len(),
                    forall|m: int|
                        0 <= m < i ==> text_before((#[trigger] out@[m]).path@, c.path@),
                ensures
                    i <= out@.len(),
                    dup ==> i < out@.len() && out@[i as int].path@ == c.path@,
                    !dup ==> forall|m: int|
                        0 <= m < i ==> text_before((#[trigger] out@[m]).path@, c.path@),
                    !dup && i < out@.len() ==> text_before(c.path@, out@[i as int].path@),
                decreases out@.len() - i,
            {
                if out[i].path == c.path {
                    dup = true;
                    break;
                }
                if text_sorts_before(c.path.as_str(), out[i].path.as_str()) {
                    break;
                }
                proof {
                    lemma_text_before_total(out@[i as int].path@, c.path@);
                }
                i = i + 1;
            }
            if dup {
                proof {
                    assert forall|m: int| 0 <= m < out@.len() implies first_usable(
                        now,
                        (#[trigger] out@[m]).path@,
                    ) == Some(out@[m]) by {
                        assert(first_usable(before, out@[m].path@) == Some(out@[m]));
                    }
                    assert(out@[i as int].path@ == c.path@);
                }
            } else {
                proof {
                    // Nothing after the insertion point has this path either.
                    assert forall|m: int| i <= m < out@.len() implies text_before(
                        c.path@,
                        (#[trigger] out@[m]).path@,
                    ) by {
                        if m > i {
                            lemma_text_before_transitive(
                                c.path@,
                                out@[i as int].path@,
                                out@[m].path@,
                            );
                        }
                    }
                    // So no earlier usable interface had it.
                    if first_usable(before, c.path@) is Some {
                        lemma_first_usable(before, c.path@);
                        let x = first_usable(before, c.path@)->0;
                        let k = choose|k: int| 0 <= k < before.len() && before[k] == x;
                        assert(found@[k] == x);
                        let w = choose|w: int|
                            0 <= w < out@.len() && (#[trigger] out@[w]).path@ == found@[k].path@;
                        lemma_text_before_irreflexive(c.path@);
                    }
                    assert(first_usable(now, c.path@) == Some(*c));
                }
                let ghost old_out = out@;
                out.insert(i, copy_candidate(c));
                proof {
                    assert forall|a: int, b: int| 0 <= a < b < out@.len() implies text_before(
                        #[trigger] out@[a].path@,
                        #[trigger] out@[b].path@,
                    ) by {
                        if a < i && b < i {
                            assert(out@[a] == old_out[a] && out@[b] == old_out[b]);
                        } else if a < i && b == i {
                        } else if a < i {
                            assert(out@[a] == old_out[a] && out@[b] == old_out[b - 1]);
                            lemma_text_before_transitive(
                                old_out[a].path@,
                                c.path@,
                                old_out[b - 1].path@,
                            );
                        } else if a == i {
                            assert(out@[b] == old_out[b - 1]);
                        } else {
                            assert(out@[a] == old_out[a - 1] && out@[b] == old_out[b - 1]);
                        }
                    }
                    assert forall|m: int| 0 <= m < out@.len() implies first_usable(
                        now,
                        (#[trigger] out@[m]).path@,
                    ) == Some(out@[m]) by {
                        if m < i {
                            assert(out@[m] == old_out[m]);
                            assert(first_usable(before, old_out[m].path@) == Some(old_out[m]));
                        } else if m > i {
                            assert(out@[m] == old_out[m - 1]);
                            assert(first_usable(before, old_out[m - 1].path@) == Some(
                                old_out[m - 1],
                            ));
                        }
                    }
                    assert forall|k: int| 0 <= k < j + 1 && usable(#[trigger] found@[k]) implies exists|
                        w: int,
                    | 0 <= w < out@.len() && (#[trigger] out@[w]).path@ == found@[k].path@ by {
                        if k == j {
                            assert(out@[i as int].path@ == found@[k].path@);
                        } else {
                            let w = choose|w: int|
                                0 <= w < old_out.len() && (#[trigger] old_out[w]).path@
                                    == found@[k].path@;
                            if w < i {
                                assert(out@[w] == old_out[w]);
                            } else {
                                assert(out@[w + 1] == old_out[w]);
                            }
                        }
                    }
                }
            }
        } else {
            proof {
                assert forall|m: int| 0 <= m < out@.len() implies first_usable(
                    now,
                    (#[trigger] out@[m]).path@,
                ) == Some(out@[m]) by {
                    assert(first_usable(before, out@[m].path@) == Some(out@[m]));
                }
            }
        }
        j = j + 1;
    }
    assert(found@.take(found@.len() as int) =~= found@);
    assert forall|i: int| 0 <= i < out@.len() implies usable(#[trigger] out@[i]) by {
        lemma_first_usable(found@, out@[i].path@);
    }
    out
}

} // verus!
