//! Sorted, address-keyed list of static symbols with owned name strings.
//!
//! The symbol map is the fallback of symbolication when DWARF line
//! information is unavailable: it answers "which is the symbol with the
//! greatest address at or below this static address".

use vstd::prelude::*;

verus! {

/// One static symbol: an address and an owned copy of its name.
#[derive(Debug, Clone, PartialEq, Eq)]
pub struct OwnedSymbolMapName {
    /// The symbol address.
    pub address: u64,
    /// The symbol name.
    pub name: String,
}

impl OwnedSymbolMapName {
    /// Construct an entry from an address and an owned name.
    pub fn new(address: u64, name: String) -> (r: OwnedSymbolMapName)
        ensures
            r.address == address,
            r.name == name,
    {
        OwnedSymbolMapName { address, name }
    }

    /// The symbol address.
    pub fn address(&self) -> (r: u64)
        ensures
            r == self.address,
    {
        self.address
    }

    /// The symbol name.
    pub fn name(&self) -> (r: &str)
        ensures
            r@ == self.name@,
    {
        self.name.as_str()
    }
}

/// Whether `s` is sorted by ascending address.
pub open spec fn sorted_by_address(s: Seq<OwnedSymbolMapName>) -> bool {
    forall|i: int, j: int| 0 <= i < j < s.len() ==> s[i].address <= s[j].address
}

/// The symbols enumerated by the static symbol table of the object file with
/// the given bytes; bytes that do not parse enumerate none.
pub uninterp spec fn symbols_of(data: Seq<u8>) -> Seq<OwnedSymbolMapName>;

/// The entries of the object file's static symbol table, one owned copy per
/// symbol, in the order the table enumerates them.
///
/// Relies on object's `File::parse`, `Object::symbol_map` and
/// `SymbolMapName`'s accessors: the entries are a function of the bytes
/// alone.
#[verifier::external_body]
fn object_symbols(data: &[u8]) -> (r: Vec<OwnedSymbolMapName>)
    ensures
        r@ == symbols_of(data@),
{
    let obj = match object::File::parse(data) {
        Ok(o) => o,
        Err(_) => return Vec::new(),
    };
    object::Object::symbol_map(&obj)
        .symbols()
        .iter()
        .map(|s| OwnedSymbolMapName { address: s.address(), name: s.name().to_string() })
        .collect()
}

/// Build the symbol map of the object file held in `data`.
pub fn load(data: &[u8]) -> (r: OwnedSymbolMap)
    ensures
        r.wf(),
        r.entries().to_multiset() == symbols_of(data@).to_multiset(),
{
    OwnedSymbolMap::new(object_symbols(data))
}

/// A map from static addresses to symbols, sorted by ascending address.
#[derive(Debug)]
pub struct OwnedSymbolMap {
    entries: Vec<OwnedSymbolMapName>,
}

impl OwnedSymbolMap {
    /// The entries of the map, in ascending address order.
    pub closed spec fn entries(self) -> Seq<OwnedSymbolMapName> {
        self.entries@
    }

    /// The map's invariant: entries are sorted by ascending address.
    #[verifier::type_invariant]
    pub closed spec fn wf(self) -> bool {
        sorted_by_address(self.entries@)
    }

    /// Construct a map from a list of symbols, sorting them by address.
    pub fn new(symbols: Vec<OwnedSymbolMapName>) -> (r: OwnedSymbolMap)
        ensures
            r.wf(),
            sorted_by_address(r.entries()),
            r.entries().to_multiset() == symbols@.to_multiset(),
    {
        let mut entries = symbols;
        sort_entries(&mut entries);
        OwnedSymbolMap { entries }
    }

    /// How many symbols the map holds.
    pub fn len(&self) -> (r: usize)
        ensures
            r == self.entries().len(),
    {
        self.entries.len()
    }

    /// The symbol at or before `address`: the entry with the greatest index
    /// whose address is at most `address`, or `None` when every entry lies
    /// above it.
    pub fn get(&self, address: u64) -> (r: Option<&OwnedSymbolMapName>)
        ensures
            match r {
                Some(e) => self.spec_get(address) == Some(*e),
                None => self.spec_get(address) is None,
            },
    {
        proof {
            use_type_invariant(self);
        }
        let mut lo: usize = 0;
        let mut hi: usize = self.entries.len();
        // After the loop, `lo` is the number of entries with address <= `address`.
        while lo < hi
            invariant
                lo <= hi <= self.entries@.len(),
                sorted_by_address(self.entries@),
                forall|i: int| 0 <= i < lo ==> self.entries@[i].address <= address,
                forall|i: int| hi <= i < self.entries@.len() ==> self.entries@[i].address > address,
            decreases hi - lo,
        {
            let mid = lo + (hi - lo) / 2;
            if self.entries[mid].address <= address {
                lo = mid + 1;
            } else {
                hi = mid;
            }
        }
        if lo == 0 {
            proof {
                assert forall|i: int| 0 <= i < self.entries().len() implies (#[trigger] self.entries()[i]).address
                    > address by {
                    assert(self.entries@[i].address > address);
                }
                assert(!self.has_entry_at_or_below(address));
            }
            None
        } else {
            proof {
                self.lemma_last_below_unique(address, lo - 1);
            }
            Some(&self.entries[lo - 1])
        }
    }

    /// Whether some entry's address is at most `address`.
    pub open spec fn has_entry_at_or_below(self, address: u64) -> bool {
        exists|i: int| 0 <= i < self.entries().len() && self.entries()[i].address <= address
    }

    /// What `get` returns: the last entry with address at most `address`.
    pub closed spec fn spec_get(self, address: u64) -> Option<OwnedSymbolMapName> {
        if self.has_entry_at_or_below(address) {
            let i = self.last_at_or_below(address);
            Some(self.entries@[i])
        } else {
            None
        }
    }

    /// The greatest index whose entry's address is at most `address`.
    pub closed spec fn last_at_or_below(self, address: u64) -> int {
        choose|i: int|
            0 <= i < self.entries@.len() && self.entries@[i].address <= address && (forall|j: int|
                i < j < self.entries@.len() ==> self.entries@[j].address > address)
    }

    /// When index `w` carries an address at most `address` and every later
    /// index carries a greater one, `spec_get` returns exactly entry `w`.
    proof fn lemma_last_below_unique(self, address: u64, w: int)
        requires
            0 <= w < self.entries@.len(),
            self.entries@[w].address <= address,
            forall|j: int| w < j < self.entries@.len() ==> self.entries@[j].address > address,
        ensures
            self.last_at_or_below(address) == w,
            self.spec_get(address) == Some(self.entries@[w]),
    {
        assert(self.entries()[w].address <= address);
        assert(self.has_entry_at_or_below(address));
        assert(0 <= w < self.entries@.len() && self.entries@[w].address <= address && (forall|
            j: int,
        | w < j < self.entries@.len() ==> self.entries@[j].address > address));
        let c = self.last_at_or_below(address);
        assert(0 <= c < self.entries@.len() && self.entries@[c].address <= address && (forall|
            j: int,
        | c < j < self.entries@.len() ==> self.entries@[j].address > address));
        if c < w {
            assert(self.entries@[w].address > address);
        } else if c > w {
            assert(self.entries@[c].address > address);
        }
    }

    /// `spec_get` answers `Some` exactly when some entry's address is at
    /// most `address`, and then returns an entry with the greatest such
    /// address.
    pub proof fn lemma_get_greatest(self, address: u64)
        requires
            self.wf(),
        ensures
            (self.spec_get(address) is Some) <==> self.has_entry_at_or_below(address),
            self.spec_get(address) matches Some(e) ==> e.address <= address && (forall|i: int|
                0 <= i < self.entries().len() && self.entries()[i].address <= address
                    ==> self.entries()[i].address <= e.address),
    {
        if self.has_entry_at_or_below(address) {
            let w = choose|i: int|
                0 <= i < self.entries().len() && self.entries()[i].address <= address;
            let m = max_index_at_or_below(self.entries@, address, w);
            self.lemma_last_below_unique(address, m);
            assert forall|i: int|
                0 <= i < self.entries@.len() && self.entries@[i].address <= address implies self
                .entries@[i].address <= self.entries@[m].address by {
                if i > m {
                    assert(self.entries@[i].address > address);
                }
            }
        }
    }
}

/// Returns the greatest index of the sorted `s` at or above `w` whose
/// address is at most `address`, given that `s[w]` is.
proof fn max_index_at_or_below(s: Seq<OwnedSymbolMapName>, address: u64, w: int) -> (r: int)
    requires
        sorted_by_address(s),
        0 <= w < s.len(),
        s[w].address <= address,
    ensures
        w <= r < s.len(),
        s[r].address <= address,
        forall|j: int| r < j < s.len() ==> s[j].address > address,
    decreases s.len() - w,
{
    if w == s.len() - 1 {
        w
    } else if s[w + 1].address <= address {
        max_index_at_or_below(s, address, w + 1)
    } else {
        let r = w;
        assert forall|j: int| r < j < s.len() implies s[j].address > address by {
            if j > w + 1 && s[j].address <= address {
                assert(s[w + 1].address <= s[j].address);
            }
        }
        r
    }
}

/// Sort the entries by ascending address with insertion sort, keeping the
/// multiset of entries.
fn sort_entries(v: &mut Vec<OwnedSymbolMapName>)
    ensures
        final(v)@.to_multiset() == old(v)@.to_multiset(),
        sorted_by_address(final(v)@),
{
    let ghost orig = v@;
    if v.len() < 2 {
        return;
    }
    let mut i: usize = 1;
    while i < v.len()
        invariant
            1 <= i <= v@.len(),
            v@.len() == orig.len(),
            v@.to_multiset() == orig.to_multiset(),
            forall|a: int, b: int| 0 <= a < b < i ==> v@[a].address <= v@[b].address,
        decreases v@.len() - i,
    {
        let mut j: usize = i;
        while j > 0 && v[j - 1].address > v[j].address
            invariant
                j <= i < v@.len(),
                v@.len() == orig.len(),
                v@.to_multiset() == orig.to_multiset(),
                forall|a: int, b: int|
                    0 <= a < b <= i && a != j && b != j ==> v@[a].address <= v@[b].address,
                forall|a: int| j < a <= i ==> v@[j as int].address <= v@[a].address,
            decreases j,
        {
            let ghost before = v@;
            let x = v.remove(j);
            let ghost mid = v@;
            v.insert(j - 1, x);
            proof {
                broadcast use vstd::seq_lib::to_multiset_remove;
                broadcast use vstd::seq_lib::to_multiset_insert;
                broadcast use vstd::seq_lib::to_multiset_contains;
                broadcast use vstd::multiset::group_multiset_axioms;

                assert(mid == before.remove(j as int));
                assert(v@ =~= before.update(j - 1, before[j as int]).update(
                    j as int,
                    before[(j - 1) as int],
                ));
                assert(before.contains(before[j as int]));
                assert(v@.to_multiset() =~= before.to_multiset());
                assert forall|a: int, b: int|
                    0 <= a < b <= i && a != j - 1 && b != j - 1 implies v@[a].address
                    <= v@[b].address by {
                    if a == j {
                        assert(before[(j - 1) as int].address <= before[b].address);
                    } else if b == j {
                        assert(before[a].address <= before[(j - 1) as int].address);
                    }
                }
                assert forall|a: int| j - 1 < a <= i implies v@[(j - 1) as int].address <= (
                #[trigger] v@[a]).address by {
                    if a == j {
                        assert(v@[a] == before[(j - 1) as int]);
                        assert(before[j as int].address < before[(j - 1) as int].address);
                    } else {
                        assert(v@[a] == before[a]);
                        assert(before[j as int].address <= before[a].address);
                    }
                }
            }
            j = j - 1;
        }
        proof {
            assert forall|a: int, b: int| 0 <= a < b < i + 1 implies v@[a].address
                <= v@[b].address by {
                if b == j && j > 0 {
                    assert(v@[(j - 1) as int].address <= v@[j as int].address);
                    if a < j - 1 {
                        assert(v@[a].address <= v@[(j - 1) as int].address);
                    }
                }
            }
        }
        i = i + 1;
    }
    proof {
        assert(i == v@.len());
    }
}

} // verus!
