//! Which origins have stored something.

use vstd::prelude::*;

use crate::text::{contains_text, texts};

verus! {

/// An origin that has stored something.
#[derive(Debug)]
pub struct OriginDescriptor {
    pub name: String,
}

impl OriginDescriptor {
    /// The descriptor of an origin.
    pub fn new(name: String) -> (descriptor: Self)
        ensures
            descriptor == (OriginDescriptor { name }),
    {
        OriginDescriptor { name }
    }
}

/// The origins that have stored something, each once, in the order in which they first did.
#[derive(Debug)]
pub struct StorageOrigins {
    pub origin_descriptors: Vec<OriginDescriptor>,
}

/// No origin is listed twice.
pub open spec fn no_origin_twice(descriptors: Seq<OriginDescriptor>) -> bool {
    forall|i: int, j: int|
        0 <= i < j < descriptors.len() ==> (#[trigger] descriptors[i]).name@ != (
        #[trigger] descriptors[j]).name@
}

/// The origins, in order.
pub open spec fn origin_names(descriptors: Seq<OriginDescriptor>) -> Seq<Seq<char>> {
    descriptors.map_values(|descriptor: OriginDescriptor| descriptor.name@)
}

impl View for StorageOrigins {
    type V = Seq<Seq<char>>;

    open spec fn view(&self) -> Seq<Seq<char>> {
        origin_names(self.origin_descriptors@)
    }
}

/// The descriptors that stay when the sites are cleared: `domains[i]` is the registered domain of
/// descriptor `i`, if it has one.
pub open spec fn staying(
    descriptors: Seq<OriginDescriptor>,
    domains: Seq<Option<String>>,
    sites: Seq<String>,
) -> Seq<OriginDescriptor>
    decreases descriptors.len(),
{
    if descriptors.len() == 0 {
        seq![]
    } else {
        let n = descriptors.len() - 1;
        let before = staying(descriptors.drop_last(), domains, sites);
        if of_sites(domains[n], sites) {
            before
        } else {
            before.push(descriptors[n])
        }
    }
}

/// The origins that go when the sites are cleared.
pub open spec fn going(
    descriptors: Seq<OriginDescriptor>,
    domains: Seq<Option<String>>,
    sites: Seq<String>,
) -> Seq<Seq<char>>
    decreases descriptors.len(),
{
    if descriptors.len() == 0 {
        seq![]
    } else {
        let n = descriptors.len() - 1;
        let before = going(descriptors.drop_last(), domains, sites);
        if of_sites(domains[n], sites) {
            before.push(descriptors[n].name@)
        } else {
            before
        }
    }
}

/// The registered domain is one of the sites. An origin without a registered domain is of none.
pub open spec fn of_sites(domain: Option<String>, sites: Seq<String>) -> bool {
    domain matches Some(domain) && texts(sites).contains(domain@)
}

fn is_of_sites(domain: &Option<String>, sites: &Vec<String>) -> (is_one: bool)
    ensures
        is_one == of_sites(*domain, sites@),
{
    match domain {
        Some(own) => contains_text(sites, own),
        None => false,
    }
}

proof fn staying_is_part(
    descriptors: Seq<OriginDescriptor>,
    domains: Seq<Option<String>>,
    sites: Seq<String>,
)
    requires
        no_origin_twice(descriptors),
    ensures
        no_origin_twice(staying(descriptors, domains, sites)),
        forall|i: int|
            0 <= i < staying(descriptors, domains, sites).len() ==> descriptors.contains(
                #[trigger] staying(descriptors, domains, sites)[i],
            ),
    decreases descriptors.len(),
{
    if descriptors.len() > 0 {
        let fewer = descriptors.drop_last();
        let n = descriptors.len() - 1;
        let before = staying(fewer, domains, sites);
        let after = staying(descriptors, domains, sites);
        assert forall|i: int, j: int| 0 <= i < j < fewer.len() implies (
        #[trigger] fewer[i]).name@ != (#[trigger] fewer[j]).name@ by {
            assert(descriptors[i].name@ != descriptors[j].name@);
        }
        staying_is_part(fewer, domains, sites);
        assert forall|i: int| 0 <= i < after.len() implies descriptors.contains(
            #[trigger] after[i],
        ) by {
            if i < before.len() {
                assert(after[i] == before[i]);
                assert(fewer.contains(before[i]));
                let k = choose|k: int| 0 <= k < fewer.len() && fewer[k] == before[i];
                assert(descriptors[k] == before[i]);
            } else {
                assert(descriptors[n] == after[i]);
            }
        }
        assert forall|i: int, j: int| 0 <= i < j < after.len() implies (
        #[trigger] after[i]).name@ != (#[trigger] after[j]).name@ by {
            assert(after[i] == before[i]);
            if j < before.len() {
                assert(after[j] == before[j]);
            } else {
                assert(fewer.contains(before[i]));
                let k = choose|k: int| 0 <= k < fewer.len() && fewer[k] == before[i];
                assert(descriptors[k].name@ != descriptors[n].name@);
            }
        }
    }
}

proof fn going_is_part(
    descriptors: Seq<OriginDescriptor>,
    domains: Seq<Option<String>>,
    sites: Seq<String>,
)
    requires
        no_origin_twice(descriptors),
    ensures
        going(descriptors, domains, sites).no_duplicates(),
        forall|i: int|
            0 <= i < going(descriptors, domains, sites).len() ==> origin_names(
                descriptors,
            ).contains(#[trigger] going(descriptors, domains, sites)[i]),
    decreases descriptors.len(),
{
    if descriptors.len() > 0 {
        let fewer = descriptors.drop_last();
        let n = descriptors.len() - 1;
        let before = going(fewer, domains, sites);
        let after = going(descriptors, domains, sites);
        assert forall|i: int, j: int| 0 <= i < j < fewer.len() implies (
        #[trigger] fewer[i]).name@ != (#[trigger] fewer[j]).name@ by {
            assert(descriptors[i].name@ != descriptors[j].name@);
        }
        going_is_part(fewer, domains, sites);
        assert forall|i: int| 0 <= i < after.len() implies origin_names(descriptors).contains(
            #[trigger] after[i],
        ) by {
            if i < before.len() {
                assert(after[i] == before[i]);
                assert(origin_names(fewer).contains(before[i]));
                let k = choose|k: int|
                    0 <= k < fewer.len() && origin_names(fewer)[k] == before[i];
                assert(origin_names(descriptors)[k] == before[i]);
            } else {
                assert(origin_names(descriptors)[n] == after[i]);
            }
        }
        assert forall|i: int, j: int| 0 <= i < j < after.len() implies after[i] != after[j] by {
            assert(after[i] == before[i]);
            if j < before.len() {
                assert(after[j] == before[j]);
            } else {
                assert(origin_names(fewer).contains(before[i]));
                let k = choose|k: int|
                    0 <= k < fewer.len() && origin_names(fewer)[k] == before[i];
                assert(descriptors[k].name@ != descriptors[n].name@);
            }
        }
    }
}

impl StorageOrigins {
    /// No origin is listed twice.
    pub open spec fn wf(&self) -> bool {
        no_origin_twice(self.origin_descriptors@)
    }

    /// No origins.
    pub fn new() -> (origins: Self)
        ensures
            origins.wf(),
            origins@ == Seq::<Seq<char>>::empty(),
    {
        let origins = StorageOrigins { origin_descriptors: Vec::new() };
        assert(origins@ =~= Seq::<Seq<char>>::empty());
        origins
    }

    /// Lists an origin, and answers whether it was not listed yet.
    pub fn ensure_origin_descriptor(&mut self, origin: &String) -> (added: bool)
        requires
            old(self).wf(),
        ensures
            final(self).wf(),
            added == !old(self)@.contains(origin@),
            final(self)@ == if added {
                old(self)@.push(origin@)
            } else {
                old(self)@
            },
    {
        let mut i: usize = 0;
        while i < self.origin_descriptors.len()
            invariant
                *self == *old(self),
                old(self).wf(),
                i <= self.origin_descriptors.len(),
                forall|j: int| 0 <= j < i ==> (#[trigger] self@[j]) != origin@,
            decreases self.origin_descriptors.len() - i,
        {
            assert(self@[i as int] == self.origin_descriptors[i as int].name@);
            if self.origin_descriptors[i].name == *origin {
                assert(self@.contains(origin@));
                return false;
            }
            i += 1;
        }
        let ghost before = self.origin_descriptors@;
        assert forall|j: int| 0 <= j < before.len() implies (#[trigger] before[j]).name@
            != origin@ by {
            assert(self@[j] == before[j].name@);
        }
        self.origin_descriptors.push(OriginDescriptor::new(origin.clone()));
        proof {
            let after = self.origin_descriptors@;
            assert forall|a: int, b: int| 0 <= a < b < after.len() implies (
            #[trigger] after[a]).name@ != (#[trigger] after[b]).name@ by {
                assert(after[a] == before[a]);
                if b < before.len() {
                    assert(before[a].name@ != before[b].name@);
                }
            }
            assert(self@ =~= origin_names(before).push(origin@));
        }
        true
    }

    /// The descriptors of all origins.
    pub fn descriptors(&self) -> (descriptors: Vec<OriginDescriptor>)
        ensures
            descriptors@ == self.origin_descriptors@,
    {
        let mut descriptors: Vec<OriginDescriptor> = Vec::new();
        let mut i: usize = 0;
        while i < self.origin_descriptors.len()
            invariant
                i <= self.origin_descriptors.len(),
                descriptors@ == self.origin_descriptors@.take(i as int),
            decreases self.origin_descriptors.len() - i,
        {
            descriptors.push(OriginDescriptor::new(self.origin_descriptors[i].name.clone()));
            assert(descriptors@ =~= self.origin_descriptors@.take(i + 1));
            i += 1;
        }
        assert(descriptors@ =~= self.origin_descriptors@);
        descriptors
    }

    /// Takes the origins of the sites off the list, and answers them. `domains` holds, for each
    /// descriptor in order, its registered domain, if it has one.
    pub fn take_origins_for_sites(
        &mut self,
        sites: &Vec<String>,
        domains: &Vec<Option<String>>,
    ) -> (taken: Vec<String>)
        requires
            old(self).wf(),
            domains.len() == old(self).origin_descriptors.len(),
        ensures
            final(self).wf(),
            final(self).origin_descriptors@ == staying(
                old(self).origin_descriptors@,
                domains@,
                sites@,
            ),
            texts(taken@) == going(old(self).origin_descriptors@, domains@, sites@),
            texts(taken@).no_duplicates(),
    {
        let ghost all = self.origin_descriptors@;
        let mut kept: Vec<OriginDescriptor> = Vec::new();
        let mut taken: Vec<String> = Vec::new();
        let mut i: usize = 0;
        assert(all.take(0) =~= seq![]);
        assert(texts(taken@) =~= seq![]);
        while i < self.origin_descriptors.len()
            invariant
                i <= self.origin_descriptors.len() == domains.len(),
                *self == *old(self),
                all == self.origin_descriptors@,
                kept@ == staying(all.take(i as int), domains@, sites@),
                texts(taken@) == going(all.take(i as int), domains@, sites@),
            decreases self.origin_descriptors.len() - i,
        {
            assert(all.take(i + 1).drop_last() =~= all.take(i as int));
            let name = self.origin_descriptors[i].name.clone();
            if is_of_sites(&domains[i], sites) {
                let ghost before = taken@;
                taken.push(name);
                assert(texts(taken@) =~= texts(before).push(name@));
            } else {
                kept.push(OriginDescriptor::new(name));
            }
            i += 1;
        }
        assert(all.take(i as int) =~= all);
        self.origin_descriptors = kept;
        proof {
            staying_is_part(all, domains@, sites@);
            going_is_part(all, domains@, sites@);
        }
        taken
    }
}

} // verus!
