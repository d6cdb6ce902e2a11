use vstd::prelude::*;

verus! {

/// The stable transport-level address of a connected client. Its view is the
/// address as a sequence of characters; two identities name the same client
/// exactly when their views are equal.
#[derive(Debug, PartialEq, Eq)]
pub struct CallerIdentity {
    name: String,
}

impl View for CallerIdentity {
    type V = Seq<char>;

    closed spec fn view(&self) -> Seq<char> {
        self.name@
    }
}

impl CallerIdentity {
    /// Wraps the address that the transport reported for a client.
    pub fn new(name: String) -> (id: Self)
        ensures
            id@ == name@,
    {
        CallerIdentity { name }
    }

    /// The address as text.
    pub fn as_str(&self) -> (s: &str)
        ensures
            s@ == self@,
    {
        self.name.as_str()
    }

    /// Whether both identities name the same client.
    pub fn same_as(&self, other: &CallerIdentity) -> (same: bool)
        ensures
            same == (self@ == other@),
    {
        self.name == other.name
    }

    /// A second value for the same client.
    pub fn duplicate(&self) -> (copy: Self)
        ensures
            copy == *self,
    {
        CallerIdentity { name: self.name.clone() }
    }
}

/// A name on the message bus, as the transport lists them: either the unique
/// address of one connection, or a well-known name that a connection may own.
#[derive(Debug, PartialEq, Eq)]
pub enum BusName {
    Unique(CallerIdentity),
    WellKnown(String),
}

/// The address that `name` gives if it is the unique address of a connection.
pub open spec fn unique_address(name: BusName) -> Option<Seq<char>> {
    match name {
        BusName::Unique(id) => Some(id@),
        BusName::WellKnown(_) => None,
    }
}

/// The addresses of `callers`, in order.
pub open spec fn addresses(callers: Seq<CallerIdentity>) -> Seq<Seq<char>> {
    callers.map_values(|id: CallerIdentity| id@)
}

/// The set of clients that `callers` lists.
pub open spec fn connected(callers: Seq<CallerIdentity>) -> Set<Seq<char>> {
    addresses(callers).to_set()
}

/// The clients that are connected according to the names that the transport
/// listed: those whose unique address is among the names.
pub open spec fn listed_callers(names: Seq<BusName>) -> Set<Seq<char>> {
    Set::new(
        |who: Seq<char>|
            exists|i: int| 0 <= i < names.len() && unique_address(#[trigger] names[i]) == Some(who),
    )
}

/// The connected callers among the names that the transport listed: the
/// unique addresses, in the order listed. Well-known names are no callers.
pub fn live_callers(names: &Vec<BusName>) -> (live: Vec<CallerIdentity>)
    ensures
        addresses(live@) == names@.filter_map(|name: BusName| unique_address(name)),
        connected(live@) == listed_callers(names@),
{
    let ghost pick = |name: BusName| unique_address(name);
    let ghost mut source: Seq<int> = Seq::empty();
    let mut live: Vec<CallerIdentity> = Vec::new();
    for i in 0..names.len()
        invariant
            pick == |name: BusName| unique_address(name),
            addresses(live@) == names@.take(i as int).filter_map(pick),
            source.len() == live@.len(),
            forall|k: int|
                0 <= k < source.len() ==> 0 <= #[trigger] source[k] < i && unique_address(
                    names@[source[k]],
                ) == Some(live@[k]@),
            forall|j: int|
                0 <= j < i && unique_address(#[trigger] names@[j]) is Some ==> source.contains(j),
    {
        proof {
            assert(names@.take(i + 1).drop_last() =~= names@.take(i as int));
        }
        match &names[i] {
            BusName::Unique(id) => {
                let ghost earlier = live@;
                let ghost before = source;
                live.push(id.duplicate());
                proof {
                    source = source.push(i as int);
                    assert(addresses(live@) =~= addresses(earlier) + seq![id@]);
                    assert forall|j: int|
                        0 <= j < i + 1 && unique_address(
                            #[trigger] names@[j],
                        ) is Some implies source.contains(j) by {
                        if j < i {
                            let k = choose|k: int| 0 <= k < before.len() && before[k] == j;
                            assert(source[k] == j);
                        } else {
                            assert(source[before.len() as int] == j);
                        }
                    }
                }
            },
            BusName::WellKnown(_) => {},
        }
    }
    proof {
        assert(names@.take(names@.len() as int) =~= names@);
        assert forall|who: Seq<char>| connected(live@).contains(who) implies listed_callers(
            names@,
        ).contains(who) by {
            let k = choose|k: int| 0 <= k < addresses(live@).len() && addresses(live@)[k] == who;
            assert(unique_address(names@[source[k]]) == Some(who));
        }
        assert forall|who: Seq<char>| listed_callers(names@).contains(who) implies connected(
            live@,
        ).contains(who) by {
            let j = choose|j: int|
                0 <= j < names@.len() && unique_address(#[trigger] names@[j]) == Some(who);
            assert(source.contains(j));
            let k = choose|k: int| 0 <= k < source.len() && source[k] == j;
            assert(addresses(live@)[k] == who);
        }
        assert(connected(live@) =~= listed_callers(names@));
    }
    live
}

/// Whether `who` is among `live`.
pub fn is_connected(live: &Vec<CallerIdentity>, who: &CallerIdentity) -> (found: bool)
    ensures
        found == connected(live@).contains(who@),
{
    for i in 0..live.len()
        invariant
            forall|j: int| 0 <= j < i ==> live@[j]@ != who@,
    {
        if live[i].same_as(who) {
            assert(addresses(live@)[i as int] == who@);
            return true;
        }
    }
    assert(!addresses(live@).contains(who@)) by {
        if addresses(live@).contains(who@) {
            let j = choose|j: int| 0 <= j < addresses(live@).len() && addresses(live@)[j] == who@;
            assert(live@[j]@ == who@);
        }
    }
    false
}

} // verus!
