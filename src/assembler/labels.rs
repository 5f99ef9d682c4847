//! The label table: label identifiers, cut to five characters, mapped to
//! addresses.
use vstd::prelude::*;

use crate::instruction::Address;

verus! {

/// The identifier a label is filed under: its first five characters.
pub open spec fn canonical(label: Seq<u8>) -> Seq<u8> {
    if label.len() <= 5 {
        label
    } else {
        label.subrange(0, 5)
    }
}

/// A table of labels with distinct identifiers.
pub struct LabelLookup {
    keys: Vec<Vec<u8>>,
    values: Vec<Address>,
    table: Ghost<Map<Seq<u8>, Address>>,
}

impl View for LabelLookup {
    type V = Map<Seq<u8>, Address>;

    closed spec fn view(&self) -> Map<Seq<u8>, Address> {
        self.table@
    }
}

impl LabelLookup {
    pub closed spec fn wf(&self) -> bool {
        &&& self.keys@.len() == self.values@.len()
        &&& forall|i: int|
            0 <= i < self.keys@.len() ==> #[trigger] self.table@.contains_key(self.keys@[i]@)
                && self.table@[self.keys@[i]@] == self.values@[i]
        &&& forall|k: Seq<u8>|
            #[trigger] self.table@.contains_key(k) ==> exists|i: int|
                0 <= i < self.keys@.len() && #[trigger] self.keys@[i]@ == k
    }

    /// An empty table.
    pub fn new() -> (r: LabelLookup)
        ensures
            r.wf(),
            r@ == Map::<Seq<u8>, Address>::empty(),
    {
        LabelLookup { keys: Vec::new(), values: Vec::new(), table: Ghost(Map::empty()) }
    }

    fn to_label_ident(label: &[u8]) -> (r: Vec<u8>)
        ensures
            r@ == canonical(label@),
    {
        let n = if label.len() < 5 {
            label.len()
        } else {
            5
        };
        let mut ident: Vec<u8> = Vec::new();
        let mut i: usize = 0;
        while i < n
            invariant
                n <= label@.len(),
                n == (if label@.len() < 5 {
                    label@.len()
                } else {
                    5
                }),
                i <= n,
                ident@ == label@.subrange(0, i as int),
            decreases n - i,
        {
            ident.push(label[i]);
            assert(ident@ =~= label@.subrange(0, i + 1));
            i = i + 1;
        }
        assert(label@.subrange(0, label@.len() as int) =~= label@);
        ident
    }

    /// Where the identifier is filed, if it is.
    fn position_of(&self, ident: &Vec<u8>) -> (r: Option<usize>)
        requires
            self.wf(),
        ensures
            match r {
                Some(i) => i < self.keys@.len() && self.keys@[i as int]@ == ident@,
                None => !self@.contains_key(ident@),
            },
    {
        let mut i: usize = 0;
        while i < self.keys.len()
            invariant
                self.wf(),
                i <= self.keys@.len(),
                forall|j: int| 0 <= j < i ==> self.keys@[j]@ != ident@,
            decreases self.keys.len() - i,
        {
            if bytes_equal(&self.keys[i], ident) {
                return Some(i);
            }
            i = i + 1;
        }
        None
    }

    /// Files `label` at `address`; `Err` and no change where a label with
    /// the same identifier is already filed.
    pub fn insert(&mut self, label: &[u8], address: Address) -> (r: Result<(), ()>)
        requires
            old(self).wf(),
        ensures
            final(self).wf(),
            old(self)@.contains_key(canonical(label@)) ==> r.is_err() && final(self)@ == old(
                self,
            )@,
            !old(self)@.contains_key(canonical(label@)) ==> r.is_ok() && final(self)@ == old(
                self,
            )@.insert(canonical(label@), address),
    {
        let ident = LabelLookup::to_label_ident(label);
        match self.position_of(&ident) {
            Some(_) => Err(()),
            None => {
                let ghost key = ident@;
                self.keys.push(ident);
                self.values.push(address);
                self.table = Ghost(self.table@.insert(key, address));
                assert forall|k: Seq<u8>| #[trigger] self.table@.contains_key(k) implies exists|i: int|
                    0 <= i < self.keys@.len() && #[trigger] self.keys@[i]@ == k by {
                    if k == key {
                        assert(self.keys@[self.keys@.len() - 1]@ == k);
                    } else {
                        assert(old(self).table@.contains_key(k));
                        let i = choose|i: int|
                            0 <= i < old(self).keys@.len() && #[trigger] old(self).keys@[i]@ == k;
                        assert(self.keys@[i]@ == k);
                    }
                }
                Ok(())
            },
        }
    }

    /// The address filed under the label's identifier.
    pub fn get(&self, label: &[u8]) -> (r: Option<Address>)
        requires
            self.wf(),
        ensures
            self@.contains_key(canonical(label@)) ==> r == Some(self@[canonical(label@)]),
            !self@.contains_key(canonical(label@)) ==> r.is_none(),
    {
        let ident = LabelLookup::to_label_ident(label);
        match self.position_of(&ident) {
            Some(i) => Some(self.values[i]),
            None => None,
        }
    }
}

fn bytes_equal(a: &Vec<u8>, b: &Vec<u8>) -> (r: bool)
    ensures
        r == (a@ == b@),
{
    if a.len() != b.len() {
        return false;
    }
    let mut i: usize = 0;
    while i < a.len()
        invariant
            a@.len() == b@.len(),
            i <= a@.len(),
            forall|k: int| 0 <= k < i ==> a@[k] == b@[k],
        decreases a.len() - i,
    {
        if a[i] != b[i] {
            return false;
        }
        i = i + 1;
    }
    assert(a@ =~= b@);
    true
}

} // verus!
