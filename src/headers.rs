//! Header mappings: ordered lists of key/value pairs with unique keys.
use vstd::prelude::*;
use crate::bytes::{bytes_equal, push_all, crlf, CR, LF, SP, COLON};

verus! {

/// A header list as a sequence of (key, value) byte strings, in stored order.
pub type HeaderSeq = Seq<(Seq<u8>, Seq<u8>)>;

pub open spec fn has_key(e: HeaderSeq, k: Seq<u8>) -> bool {
    exists|i: int| 0 <= i < e.len() && e[i].0 == k
}

pub open spec fn keys_unique(e: HeaderSeq) -> bool {
    forall|i: int, j: int| 0 <= i < e.len() && 0 <= j < e.len() && i != j ==> e[i].0 != e[j].0
}

/// Stores `v` under `k`: an entry with key `k` keeps its place and takes the
/// new value; otherwise the pair goes at the end.
pub open spec fn entries_insert(e: HeaderSeq, k: Seq<u8>, v: Seq<u8>) -> HeaderSeq {
    if has_key(e, k) {
        e.map_values(|p: (Seq<u8>, Seq<u8>)| if p.0 == k { (k, v) } else { p })
    } else {
        e.push((k, v))
    }
}

/// The mapping that a list of pairs denotes when read in order: a later pair
/// overrides an earlier one with the same key.
pub open spec fn header_map(e: HeaderSeq) -> Map<Seq<u8>, Seq<u8>>
    decreases e.len(),
{
    if e.len() == 0 {
        Map::empty()
    } else {
        header_map(e.drop_last()).insert(e.last().0, e.last().1)
    }
}

/// The list that inserting the pairs of `pairs` one after another into an
/// empty header list builds.
pub open spec fn insert_all(pairs: HeaderSeq) -> HeaderSeq
    decreases pairs.len(),
{
    if pairs.len() == 0 {
        Seq::empty()
    } else {
        entries_insert(insert_all(pairs.drop_last()), pairs.last().0, pairs.last().1)
    }
}

/// `Key: Value` followed by CRLF.
pub open spec fn header_line_bytes(h: (Seq<u8>, Seq<u8>)) -> Seq<u8> {
    h.0 + seq![COLON, SP] + h.1 + crlf()
}

/// Every header line of `e`, in stored order.
pub open spec fn header_block(e: HeaderSeq) -> Seq<u8>
    decreases e.len(),
{
    if e.len() == 0 {
        Seq::empty()
    } else {
        header_block(e.drop_last()) + header_line_bytes(e.last())
    }
}

pub proof fn lemma_has_key_dom(e: HeaderSeq, k: Seq<u8>)
    ensures
        header_map(e).contains_key(k) == has_key(e, k),
    decreases e.len(),
{
    if e.len() > 0 {
        let d = e.drop_last();
        lemma_has_key_dom(d, k);
        if has_key(d, k) {
            let i = choose|i: int| 0 <= i < d.len() && d[i].0 == k;
            assert(e[i].0 == k);
        }
        if has_key(e, k) && e.last().0 != k {
            let i = choose|i: int| 0 <= i < e.len() && e[i].0 == k;
            assert(d[i].0 == k);
        }
    }
}

pub proof fn lemma_map_of_entry(e: HeaderSeq, i: int)
    requires
        keys_unique(e),
        0 <= i < e.len(),
    ensures
        header_map(e).contains_key(e[i].0),
        header_map(e)[e[i].0] == e[i].1,
    decreases e.len(),
{
    let d = e.drop_last();
    if i < e.len() - 1 {
        assert(d[i] == e[i]);
        lemma_map_of_entry(d, i);
        assert(e.last().0 != e[i].0);
    }
}

pub proof fn lemma_insert_unique(e: HeaderSeq, k: Seq<u8>, v: Seq<u8>)
    requires
        keys_unique(e),
    ensures
        keys_unique(entries_insert(e, k, v)),
        has_key(entries_insert(e, k, v), k),
        forall|j: int| #![auto] 0 <= j < e.len() ==> entries_insert(e, k, v)[j].0 == e[j].0,
{
    let r = entries_insert(e, k, v);
    if has_key(e, k) {
        let i = choose|i: int| 0 <= i < e.len() && e[i].0 == k;
        assert(r[i].0 == k);
    } else {
        assert(r[e.len() as int].0 == k);
        assert forall|i: int, j: int|
            0 <= i < r.len() && 0 <= j < r.len() && i != j implies r[i].0 != r[j].0 by {
            if i < e.len() && j < e.len() {
            } else if i < e.len() {
                assert(e[i].0 != k);
            } else {
                assert(e[j].0 != k);
            }
        }
    }
}

/// Inserting into a list with unique keys inserts into the mapping it denotes.
pub proof fn lemma_insert_map(e: HeaderSeq, k: Seq<u8>, v: Seq<u8>)
    requires
        keys_unique(e),
    ensures
        header_map(entries_insert(e, k, v)) == header_map(e).insert(k, v),
    decreases e.len(),
{
    if has_key(e, k) {
        let f = |p: (Seq<u8>, Seq<u8>)| if p.0 == k { (k, v) } else { p };
        let r = e.map_values(f);
        assert(entries_insert(e, k, v) =~= r);
        let d = e.drop_last();
        assert(r.drop_last() =~= d.map_values(f));
        if e.last().0 == k {
            assert(!has_key(d, k)) by {
                if has_key(d, k) {
                    let i = choose|i: int| 0 <= i < d.len() && d[i].0 == k;
                    assert(e[i].0 == e[e.len() - 1].0);
                }
            }
            assert(d.map_values(f) =~= d) by {
                assert forall|i: int| 0 <= i < d.len() implies d.map_values(f)[i] == d[i] by {
                    assert(d[i].0 != k);
                }
            }
            assert(header_map(r) =~= header_map(e).insert(k, v));
        } else {
            let i = choose|i: int| 0 <= i < e.len() && e[i].0 == k;
            assert(d[i].0 == k);
            assert(has_key(d, k));
            lemma_insert_map(d, k, v);
            assert(entries_insert(d, k, v) =~= d.map_values(f));
            assert(header_map(r) =~= header_map(e).insert(k, v));
        }
    } else {
        assert(entries_insert(e, k, v).drop_last() =~= e);
    }
}

/// One header: a key and a value, both raw bytes.
pub struct HTTPHeader {
    pub key: Vec<u8>,
    pub value: Vec<u8>,
}

impl View for HTTPHeader {
    type V = (Seq<u8>, Seq<u8>);

    open spec fn view(&self) -> (Seq<u8>, Seq<u8>) {
        (self.key@, self.value@)
    }
}

impl HTTPHeader {
    pub fn new(key: Vec<u8>, value: Vec<u8>) -> (r: HTTPHeader)
        ensures
            r@ == (key@, value@),
    {
        HTTPHeader { key, value }
    }
}

/// A header mapping: no two entries share a key, and entries keep the order
/// in which their keys were first stored.
pub struct HTTPHeaders {
    entries: Vec<HTTPHeader>,
}

impl View for HTTPHeaders {
    type V = HeaderSeq;

    closed spec fn view(&self) -> HeaderSeq {
        self.entries@.map_values(|h: HTTPHeader| h@)
    }
}

impl HTTPHeaders {
    #[verifier::type_invariant]
    spec fn unique(self) -> bool {
        keys_unique(self@)
    }

    /// An empty mapping.
    pub fn new() -> (r: HTTPHeaders)
        ensures
            r@ == Seq::<(Seq<u8>, Seq<u8>)>::empty(),
    {
        let r = HTTPHeaders { entries: Vec::new() };
        assert(r@ =~= Seq::<(Seq<u8>, Seq<u8>)>::empty());
        r
    }

    pub fn len(&self) -> (r: usize)
        ensures
            r == self@.len(),
    {
        self.entries.len()
    }

    /// Position of the entry with key `key`, if there is one.
    fn position(&self, key: &[u8]) -> (r: Option<usize>)
        ensures
            match r {
                Some(i) => i < self@.len() && self@[i as int].0 == key@,
                None => !has_key(self@, key@),
            },
    {
        let mut i: usize = 0;
        while i < self.entries.len()
            invariant
                0 <= i <= self@.len(),
                self@.len() == self.entries@.len(),
                forall|j: int| 0 <= j < i ==> self@[j].0 != key@,
            decreases self.entries@.len() - i,
        {
            if bytes_equal(self.entries[i].key.as_slice(), key) {
                return Some(i);
            }
            i = i + 1;
        }
        None
    }

    pub fn contains_key(&self, key: &[u8]) -> (r: bool)
        ensures
            r == has_key(self@, key@),
            r == header_map(self@).contains_key(key@),
    {
        proof {
            lemma_has_key_dom(self@, key@);
        }
        self.position(key).is_some()
    }

    /// The value stored under `key`.
    pub fn get(&self, key: &[u8]) -> (r: Option<&Vec<u8>>)
        ensures
            match r {
                Some(v) => header_map(self@).contains_key(key@) && header_map(self@)[key@] == v@,
                None => !header_map(self@).contains_key(key@),
            },
    {
        proof {
            use_type_invariant(self);
            lemma_has_key_dom(self@, key@);
        }
        match self.position(key) {
            Some(i) => {
                proof {
                    lemma_map_of_entry(self@, i as int);
                }
                Some(&self.entries[i].value)
            },
            None => None,
        }
    }

    /// Stores `value` under `key`; a value already stored there is replaced.
    pub fn insert(&mut self, key: Vec<u8>, value: Vec<u8>)
        ensures
            final(self)@ == entries_insert(old(self)@, key@, value@),
            header_map(final(self)@) == header_map(old(self)@).insert(key@, value@),
            keys_unique(final(self)@),
    {
        proof {
            use_type_invariant(&*self);
            lemma_insert_unique(self@, key@, value@);
            lemma_insert_map(self@, key@, value@);
        }
        let ghost before = self@;
        let pos = self.position(key.as_slice());
        let mut entries: Vec<HTTPHeader> = Vec::new();
        std::mem::swap(&mut entries, &mut self.entries);
        assert(entries@.map_values(|h: HTTPHeader| h@) == before);
        match pos {
            Some(i) => {
                proof {
                    assert(has_key(before, key@));
                }
                entries.set(i, HTTPHeader { key, value });
                assert(entries@.map_values(|h: HTTPHeader| h@) =~= entries_insert(
                    before,
                    key@,
                    value@,
                )) by {
                    assert forall|j: int| 0 <= j < before.len() && j != i implies before[j].0
                        != key@ by {
                        assert(before[j].0 != before[i as int].0);
                    }
                }
            },
            None => {
                entries.push(HTTPHeader { key, value });
                assert(entries@.map_values(|h: HTTPHeader| h@) =~= entries_insert(
                    before,
                    key@,
                    value@,
                ));
            },
        }
        self.entries = entries;
    }

    /// The entries, in stored order.
    pub fn entries(&self) -> (r: &[HTTPHeader])
        ensures
            r@.map_values(|h: HTTPHeader| h@) == self@,
            keys_unique(self@),
    {
        proof {
            use_type_invariant(self);
        }
        self.entries.as_slice()
    }
}

/// Every header line of `headers`, in stored order.
pub fn write_header_block(out: &mut Vec<u8>, headers: &HTTPHeaders)
    ensures
        final(out)@ == old(out)@ + header_block(headers@),
{
    let entries = headers.entries();
    let ghost e = headers@;
    let mut i: usize = 0;
    while i < entries.len()
        invariant
            0 <= i <= entries@.len(),
            entries@.map_values(|h: HTTPHeader| h@) == e,
            out@ == old(out)@ + header_block(e.subrange(0, i as int)),
        decreases entries@.len() - i,
    {
        let h = &entries[i];
        push_all(out, h.key.as_slice());
        out.push(COLON);
        out.push(SP);
        push_all(out, h.value.as_slice());
        out.push(CR);
        out.push(LF);
        proof {
            let p = e.subrange(0, i + 1);
            assert(p.drop_last() =~= e.subrange(0, i as int));
            assert(p.last() == h@);
            assert(out@ =~= old(out)@ + header_block(p));
        }
        i = i + 1;
    }
    assert(e.subrange(0, i as int) =~= e);
}

} // verus!
