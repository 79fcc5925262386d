//! The network interfaces that a scanner knows.

use crate::util::{ipv4_pair, same_net, Address};
use vstd::prelude::*;

verus! {

/// A network interface with the addresses that the system lists for it.
#[derive(Debug, PartialEq, Eq)]
pub struct Interface {
    pub name: String,
    pub addresses: Vec<Address>,
}

/// A network interface with its IPv4 address and netmask.
#[derive(Debug, PartialEq, Eq)]
pub struct IfAddr {
    pub name: String,
    pub addr: u32,
    pub mask: u32,
}

/// An interface as contracts speak of it.
pub struct IfEntry {
    pub name: Seq<char>,
    pub addr: u32,
    pub mask: u32,
}

impl View for IfAddr {
    type V = IfEntry;

    open spec fn view(&self) -> IfEntry {
        IfEntry { name: self.name@, addr: self.addr, mask: self.mask }
    }
}

/// The entries of a list of interfaces.
pub open spec fn entries(list: Seq<IfAddr>) -> Seq<IfEntry> {
    Seq::new(list.len(), |i: int| list[i]@)
}

/// Whether `i` is the place of the first entry of `dir` with the name `name`.
pub open spec fn first_named(dir: Seq<IfEntry>, name: Seq<char>, i: int) -> bool {
    &&& 0 <= i < dir.len()
    &&& dir[i].name == name
    &&& forall|j: int| 0 <= j < i ==> (#[trigger] dir[j]).name != name
}

/// Whether `dir` has an entry with the name `name`.
pub open spec fn has_name(dir: Seq<IfEntry>, name: Seq<char>) -> bool {
    exists|i: int| 0 <= i < dir.len() && (#[trigger] dir[i]).name == name
}

/// The place of the first entry of `dir` with the name `name`.
pub open spec fn place_of(dir: Seq<IfEntry>, name: Seq<char>) -> int {
    choose|i: int| first_named(dir, name, i)
}

/// Whether no two entries of `dir` have the same name.
pub open spec fn distinct_names(dir: Seq<IfEntry>) -> bool {
    forall|i: int, j: int|
        0 <= i < j < dir.len() ==> (#[trigger] dir[i]).name != (#[trigger] dir[j]).name
}

/// `dir` with `entry` in the place of the entry of its name, or at the end
/// where no entry had that name.
pub open spec fn inserted(dir: Seq<IfEntry>, entry: IfEntry) -> Seq<IfEntry> {
    if has_name(dir, entry.name) {
        dir.update(place_of(dir, entry.name), entry)
    } else {
        dir.push(entry)
    }
}

/// The directory that the interfaces `found` make: each one that has an IPv4
/// address and netmask is entered under its name, a later one in the place of
/// an earlier one of the same name.
pub open spec fn directory(found: Seq<Interface>) -> Seq<IfEntry>
    decreases found.len(),
{
    if found.len() == 0 {
        Seq::empty()
    } else {
        let before = directory(found.drop_last());
        match ipv4_pair(found.last().addresses@) {
            None => before,
            Some((addr, mask)) => inserted(
                before,
                IfEntry { name: found.last().name@, addr, mask },
            ),
        }
    }
}

/// The first entry with a name is in one place only.
pub proof fn lemma_first_named_unique(dir: Seq<IfEntry>, name: Seq<char>, i: int)
    requires
        first_named(dir, name, i),
    ensures
        has_name(dir, name),
        place_of(dir, name) == i,
{
    let p = place_of(dir, name);
    assert(first_named(dir, name, p));
    if p < i {
        assert(dir[p].name != name);
    }
    if i < p {
        assert(dir[i].name != name);
    }
}

/// Entering an interface keeps the names distinct.
pub proof fn lemma_inserted_distinct(dir: Seq<IfEntry>, entry: IfEntry)
    requires
        distinct_names(dir),
    ensures
        distinct_names(inserted(dir, entry)),
{
    let out = inserted(dir, entry);
    if has_name(dir, entry.name) {
        let w = choose|i: int| 0 <= i < dir.len() && (#[trigger] dir[i]).name == entry.name;
        assert(first_named(dir, entry.name, w)) by {
            assert forall|j: int| 0 <= j < w implies (#[trigger] dir[j]).name != entry.name by {
                assert(dir[j].name != dir[w].name);
            }
        }
        lemma_first_named_unique(dir, entry.name, w);
        assert forall|i: int, j: int| 0 <= i < j < out.len() implies (#[trigger] out[i]).name != (
        #[trigger] out[j]).name by {
            assert(dir[i].name != dir[j].name);
        }
    } else {
        assert forall|i: int, j: int| 0 <= i < j < out.len() implies (#[trigger] out[i]).name != (
        #[trigger] out[j]).name by {
            if j < dir.len() {
                assert(dir[i].name != dir[j].name);
            } else {
                assert(dir[i].name != entry.name);
            }
        }
    }
}

/// No name stands twice in a directory.
pub proof fn lemma_directory_distinct(found: Seq<Interface>)
    ensures
        distinct_names(directory(found)),
    decreases found.len(),
{
    if found.len() > 0 {
        lemma_directory_distinct(found.drop_last());
        match ipv4_pair(found.last().addresses@) {
            None => {},
            Some((addr, mask)) => {
                lemma_inserted_distinct(
                    directory(found.drop_last()),
                    IfEntry { name: found.last().name@, addr, mask },
                );
            },
        }
    }
}

/// The address of the first interface of `dir` whose network holds `addr`.
pub open spec fn owner(dir: Seq<IfEntry>, addr: u32) -> Option<u32>
    decreases dir.len(),
{
    if dir.len() == 0 {
        None
    } else if same_net(addr, dir[0].addr, dir[0].mask) {
        Some(dir[0].addr)
    } else {
        owner(dir.drop_first(), addr)
    }
}

/// Whether `i` is the place of the first interface of `dir` whose network
/// holds `addr`.
pub open spec fn first_owner(dir: Seq<IfEntry>, addr: u32, i: int) -> bool {
    &&& 0 <= i < dir.len()
    &&& same_net(addr, dir[i].addr, dir[i].mask)
    &&& forall|j: int| 0 <= j < i ==> !same_net(addr, (#[trigger] dir[j]).addr, dir[j].mask)
}

/// The owner is the address of the first interface whose network holds the
/// address.
pub proof fn lemma_owner_first(dir: Seq<IfEntry>, addr: u32, i: int)
    requires
        first_owner(dir, addr, i),
    ensures
        owner(dir, addr) == Some(dir[i].addr),
    decreases i,
{
    if i > 0 {
        let rest = dir.drop_first();
        assert(!same_net(addr, dir[0].addr, dir[0].mask));
        assert forall|j: int| 0 <= j < i - 1 implies !same_net(
            addr,
            (#[trigger] rest[j]).addr,
            rest[j].mask,
        ) by {
            assert(rest[j] == dir[j + 1]);
        }
        lemma_owner_first(rest, addr, i - 1);
    }
}

/// There is no owner where no interface's network holds the address.
pub proof fn lemma_owner_none(dir: Seq<IfEntry>, addr: u32)
    requires
        forall|j: int| 0 <= j < dir.len() ==> !same_net(addr, (#[trigger] dir[j]).addr, dir[j].mask),
    ensures
        owner(dir, addr) is None,
    decreases dir.len(),
{
    if dir.len() > 0 {
        let rest = dir.drop_first();
        assert(!same_net(addr, dir[0].addr, dir[0].mask));
        assert forall|j: int| 0 <= j < rest.len() implies !same_net(
            addr,
            (#[trigger] rest[j]).addr,
            rest[j].mask,
        ) by {
            assert(rest[j] == dir[j + 1]);
        }
        lemma_owner_none(rest, addr);
    }
}

/// The owner of an address is the address of an interface whose network
/// holds it, and there is one exactly where some interface's network does.
pub proof fn lemma_owner(dir: Seq<IfEntry>, addr: u32)
    ensures
        match owner(dir, addr) {
            Some(if_addr) => exists|i: int|
                first_owner(dir, addr, i) && (#[trigger] dir[i]).addr == if_addr,
            None => forall|i: int|
                0 <= i < dir.len() ==> !same_net(addr, (#[trigger] dir[i]).addr, dir[i].mask),
        },
    decreases dir.len(),
{
    if dir.len() > 0 {
        if same_net(addr, dir[0].addr, dir[0].mask) {
            assert(first_owner(dir, addr, 0));
        } else {
            let rest = dir.drop_first();
            lemma_owner(rest, addr);
            match owner(rest, addr) {
                Some(if_addr) => {
                    let k = choose|i: int|
                        first_owner(rest, addr, i) && (#[trigger] rest[i]).addr == if_addr;
                    assert(rest[k] == dir[k + 1]);
                    assert forall|j: int| 0 <= j < k + 1 implies !same_net(
                        addr,
                        (#[trigger] dir[j]).addr,
                        dir[j].mask,
                    ) by {
                        if j > 0 {
                            assert(rest[j - 1] == dir[j]);
                        }
                    }
                    assert(first_owner(dir, addr, k + 1));
                },
                None => {
                    assert forall|i: int| 0 <= i < dir.len() implies !same_net(
                        addr,
                        (#[trigger] dir[i]).addr,
                        dir[i].mask,
                    ) by {
                        if i > 0 {
                            assert(rest[i - 1] == dir[i]);
                        }
                    }
                },
            }
        }
    }
}

pub(crate) fn enter(list: &mut Vec<IfAddr>, name: &String, addr: u32, mask: u32)
    ensures
        entries(final(list)@) == inserted(entries(old(list)@), IfEntry { name: name@, addr, mask }),
{
    let ghost dir = entries(list@);
    let ghost entry = IfEntry { name: name@, addr, mask };
    let mut i: usize = 0;
    while i < list.len()
        invariant
            i <= list@.len(),
            dir == entries(list@),
            entry == (IfEntry { name: name@, addr, mask }),
            list@ == old(list)@,
            forall|j: int| 0 <= j < i ==> (#[trigger] dir[j]).name != name@,
        decreases list@.len() - i,
    {
        assert(dir[i as int] == list@[i as int]@);
        if list[i].name == *name {
            proof {
                lemma_first_named_unique(dir, name@, i as int);
            }
            list[i] = IfAddr { name: name.clone(), addr, mask };
            assert(entries(list@) =~= inserted(dir, entry));
            return ;
        }
        i = i + 1;
    }
    assert(!has_name(dir, name@));
    list.push(IfAddr { name: name.clone(), addr, mask });
    assert(entries(list@) =~= inserted(dir, entry));
}

} // verus!
