use vstd::prelude::*;

use crate::account::{Account, AccountView};

verus! {

/// The views of a sequence of records.
pub open spec fn views_of(records: Seq<Account>) -> Seq<AccountView> {
    records.map_values(|a: Account| a@)
}

/// The record belongs to the given service.
pub open spec fn has_service(a: AccountView, service: Seq<char>) -> bool {
    a.service_name == service
}

/// The records of `contents` that belong to `service`, in their stored order.
pub open spec fn service_matches(contents: Seq<AccountView>, service: Seq<char>) -> Seq<
    AccountView,
> {
    contents.filter(|a: AccountView| has_service(a, service))
}

/// Relies on `str` equality: two string slices are equal exactly when their
/// character sequences are.
#[verifier::external_body]
fn str_eq(a: &str, b: &str) -> (r: bool)
    ensures
        r == (a@ == b@),
{
    a == b
}

/// An in-memory keyed record store with the durable store's contract at its
/// boundary: records are appended with all four fields together, looked up by
/// exact service-name match, and several records may share one service name.
pub struct CredentialStore {
    records: Vec<Account>,
}

impl View for CredentialStore {
    type V = Seq<AccountView>;

    closed spec fn view(&self) -> Seq<AccountView> {
        views_of(self.records@)
    }
}

impl CredentialStore {
    /// An empty store.
    pub fn new() -> (r: CredentialStore)
        ensures
            r@ == Seq::<AccountView>::empty(),
    {
        let records: Vec<Account> = Vec::new();
        assert(views_of(records@) =~= Seq::<AccountView>::empty());
        CredentialStore { records }
    }

    /// Number of records held.
    pub fn len(&self) -> (n: usize)
        ensures
            n == self@.len(),
    {
        self.records.len()
    }

    /// Appends `record`: its identity, ciphertext and nonce are stored
    /// together, as one unit.
    pub fn put(&mut self, record: Account)
        ensures
            final(self)@ == old(self)@.push(record@),
    {
        let ghost before = self.records@;
        self.records.push(record);
        proof {
            assert(views_of(self.records@) =~= views_of(before).push(self.records@.last()@));
        }
    }

    /// Exact-match lookup by service name: copies of every matching record,
    /// in stored order. No match is an empty result, not an error.
    pub fn find_by_service(&self, service: &str) -> (r: Vec<Account>)
        ensures
            views_of(r@) == service_matches(self@, service@),
    {
        let mut found: Vec<Account> = Vec::new();
        let mut i: usize = 0;
        proof {
            assert(views_of(found@) =~= Seq::<AccountView>::empty());
            assert(views_of(self.records@).take(0) =~= Seq::<AccountView>::empty());
            reveal(Seq::filter);
        }
        while i < self.records.len()
            invariant
                i <= self.records@.len(),
                views_of(found@) == service_matches(views_of(self.records@).take(i as int), service@),
            decreases self.records@.len() - i,
        {
            let ghost taken = views_of(self.records@).take(i as int);
            let ghost pred = (|a: AccountView| has_service(a, service@));
            if str_eq(self.records[i].service_name.as_str(), service) {
                found.push(self.records[i].duplicate());
            }
            proof {
                let av = self.records@[i as int]@;
                assert(views_of(self.records@).take(i + 1) =~= taken.push(av));
                Seq::filter_distributes_over_add(taken, seq![av], pred);
                assert(taken.push(av) =~= taken + seq![av]);
                reveal(Seq::filter);
                assert(seq![av].drop_last() =~= Seq::<AccountView>::empty());
                if has_service(av, service@) {
                    assert(seq![av].filter(pred) =~= seq![av]);
                    assert(views_of(found@) =~= taken.filter(pred) + seq![av]);
                } else {
                    reveal_with_fuel(Seq::filter, 2);
                    assert(seq![av].filter(pred) =~= Seq::<AccountView>::empty());
                    assert(taken.filter(pred) + seq![av].filter(pred) =~= taken.filter(pred));
                }
            }
            i = i + 1;
        }
        proof {
            assert(views_of(self.records@).take(self.records@.len() as int) =~= views_of(
                self.records@,
            ));
        }
        found
    }
}

} // verus!
