//! The variable-length list framing shared by file-info and cast-member chunks:
//! a block of fixed numbers, an offset table, then the variable-length items.

use vstd::prelude::*;

use crate::error::{Error, ErrorKind};
use crate::reader::{be_u16, be_u32, fixed_str, ByteOrder, Reader};

verus! {

/// Position of the offset table of a list that starts at `b`.
pub open spec fn vl_table(d: Seq<u8>, b: int) -> int {
    b + be_u32(d, b)
}

/// Number of fixed numbers of `size` bytes each.
pub open spec fn vl_count(d: Seq<u8>, b: int, size: int) -> int {
    (be_u32(d, b) - 4) / size
}

/// Fixed number `k`, big-endian, of `size` bytes.
pub open spec fn vl_number(d: Seq<u8>, b: int, size: int, k: int) -> int {
    if size == 2 {
        be_u16(d, b + 4 + 2 * k)
    } else {
        be_u32(d, b + 4 + 4 * k)
    }
}

/// Number of items.
pub open spec fn vl_entries(d: Seq<u8>, b: int) -> int {
    be_u16(d, vl_table(d, b))
}

/// Offset `k` of the offset table.
pub open spec fn vl_off(d: Seq<u8>, b: int, k: int) -> int {
    be_u32(d, vl_table(d, b) + 2 + 4 * k)
}

/// Position where the items begin, just after the offset table.
pub open spec fn vl_start(d: Seq<u8>, b: int) -> int {
    vl_table(d, b) + 2 + 4 * (vl_entries(d, b) + 1)
}

/// The list at `b` is well formed: its offset points past the header and is
/// a whole number of items, its offsets never decrease, and every byte it
/// names lies in the buffer.
pub open spec fn vl_valid(d: Seq<u8>, b: int, size: int) -> bool {
    &&& 0 <= b
    &&& b + 4 <= d.len()
    &&& be_u32(d, b) >= 4
    &&& be_u32(d, b) % size == 0
    &&& vl_start(d, b) <= d.len()
    &&& forall|k: int| 0 <= k < vl_entries(d, b) ==> #[trigger] vl_off(d, b, k) <= vl_off(d, b, k + 1)
    &&& vl_start(d, b) + vl_off(d, b, vl_entries(d, b)) <= d.len()
}

/// The bytes of item `i`, when it exists and is not empty.
pub open spec fn vl_item(d: Seq<u8>, b: int, i: int) -> Option<Seq<u8>> {
    if 0 <= i && i + 1 < vl_entries(d, b) + 1 && vl_off(d, b, i) < vl_off(d, b, i + 1) {
        Some(d.subrange(vl_start(d, b) + vl_off(d, b, i), vl_start(d, b) + vl_off(d, b, i + 1)))
    } else {
        None
    }
}

/// The text of an item read as a length byte and that many bytes of string field.
pub open spec fn pascal_text(s: Seq<u8>) -> Option<Seq<char>> {
    if s.len() >= 1 && s.len() >= 1 + s[0] {
        Some(fixed_str(s.subrange(1, 1 + s[0])))
    } else {
        None
    }
}

/// What item `i` holds as a length-prefixed string: `Ok(None)` when the item
/// is absent or empty, `Err(())` when its bytes are too short for the string.
pub open spec fn vl_string(d: Seq<u8>, b: int, i: int) -> Result<Option<Seq<char>>, ()> {
    match vl_item(d, b, i) {
        None => Ok(None),
        Some(s) => match pascal_text(s) {
            Some(t) => Ok(Some(t)),
            None => Err(()),
        },
    }
}

/// A parsed list, borrowing the buffer it was read from.
pub struct VList<'a> {
    numbers: Vec<u32>,
    entry_count: u16,
    entry_start: usize,
    offsets: Vec<u32>,
    reader: Reader<'a>,
    base: Ghost<int>,
    size: Ghost<int>,
}

impl<'a> VList<'a> {
    pub closed spec fn spec_data(&self) -> Seq<u8> {
        self.reader.data()
    }

    pub closed spec fn spec_numbers(&self) -> Seq<u32> {
        self.numbers@
    }

    pub closed spec fn spec_offsets(&self) -> Seq<u32> {
        self.offsets@
    }

    pub closed spec fn spec_start(&self) -> int {
        self.entry_start as int
    }

    /// Byte order of the readers the list hands out.
    pub closed spec fn spec_order(&self) -> ByteOrder {
        self.reader.order()
    }

    /// Where in its buffer the list starts.
    pub closed spec fn spec_base(&self) -> int {
        self.base@
    }

    /// Size in bytes of the fixed numbers.
    pub closed spec fn spec_size(&self) -> int {
        self.size@
    }

    /// The list read at `b` of `d` with numbers of `size` bytes.
    pub open spec fn reads(&self, d: Seq<u8>, b: int, size: int) -> bool {
        &&& self.spec_data() == d
        &&& self.spec_base() == b
        &&& self.spec_size() == size
        &&& self.inv()
    }

    /// The fields are those of a valid list at the recorded place.
    pub closed spec fn inv(&self) -> bool {
        let d = self.reader.data();
        let b = self.base@;
        let size = self.size@;
        &&& size == 2 || size == 4
        &&& vl_valid(d, b, size)
        &&& self.entry_start == vl_start(d, b)
        &&& self.numbers@.len() == vl_count(d, b, size)
        &&& forall|k: int| 0 <= k < vl_count(d, b, size) ==> #[trigger] self.numbers@[k] == vl_number(d, b, size, k)
        &&& self.offsets@.len() == vl_entries(d, b) + 1
        &&& forall|k: int| 0 <= k <= vl_entries(d, b) ==> #[trigger] self.offsets@[k] == vl_off(d, b, k)
        &&& self.offsets@.len() >= 1
        &&& forall|k: int| 0 <= k < self.offsets@.len() - 1 ==> #[trigger] self.offsets@[k] <= self.offsets@[k + 1]
        &&& self.entry_start + self.offsets@[self.offsets@.len() - 1] <= self.reader.data().len()
        &&& self.reader.data().len() <= usize::MAX
    }

    /// Reads a list whose fixed numbers are 16-bit.
    pub fn read_u16(r: &mut Reader<'a>) -> (res: Result<VList<'a>, Error>)
        ensures
            res is Ok <==> vl_valid(old(r).data(), old(r).pos(), 2),
            res is Ok ==> res.unwrap().reads(old(r).data(), old(r).pos(), 2) && res.unwrap().spec_order() == old(r).order(),
            res is Err ==> res->Err_0.spec_kind() == ErrorKind::InvalidData,
    {
        Self::read(r, 2)
    }

    /// Reads a list whose fixed numbers are 32-bit.
    pub fn read_u32(r: &mut Reader<'a>) -> (res: Result<VList<'a>, Error>)
        ensures
            res is Ok <==> vl_valid(old(r).data(), old(r).pos(), 4),
            res is Ok ==> res.unwrap().reads(old(r).data(), old(r).pos(), 4) && res.unwrap().spec_order() == old(r).order(),
            res is Err ==> res->Err_0.spec_kind() == ErrorKind::InvalidData,
    {
        Self::read(r, 4)
    }

    #[verifier::loop_isolation(false)]
    fn read(r: &mut Reader<'a>, size: u32) -> (res: Result<VList<'a>, Error>)
        requires
            size == 2 || size == 4,
        ensures
            res is Ok <==> vl_valid(old(r).data(), old(r).pos(), size as int),
            res is Ok ==> res.unwrap().reads(old(r).data(), old(r).pos(), size as int) && res.unwrap().spec_order() == old(r).order(),
            res is Err ==> res->Err_0.spec_kind() == ErrorKind::InvalidData,
    {
        let ghost d = r.data();
        let ghost b = r.pos();
        proof {
            r.lemma_pos();
        }
        let offset = r.read_be_u32()?;
        if offset < 4 || offset % size != 0 {
            return Err(Error::InvalidData);
        }
        let numbers_count = (offset - 4) / size;
        let mut numbers: Vec<u32> = Vec::new();
        let mut k: u32 = 0;
        while k < numbers_count
            invariant
                r.data() == d,
                r.order() == old(r).order(),
                d == old(r).data(),
                b == old(r).pos(),
                b + 4 <= d.len(),
                offset == be_u32(d, b),
                size == 2 || size == 4,
                numbers_count == vl_count(d, b, size as int),
                offset == 4 + size * numbers_count,
                k <= numbers_count,
                r.pos() == b + 4 + size * k,
                numbers@.len() == k,
                forall|j: int| 0 <= j < k ==> #[trigger] numbers@[j] == vl_number(d, b, size as int, j),
            decreases numbers_count - k,
        {
            let item = if size == 2 {
                assert(r.pos() == b + 4 + 2 * k);
                let v = r.read_be_u16();
                if v.is_err() {
                    return Err(Error::UnexpectedEof);
                }
                v.unwrap() as u32
            } else {
                assert(r.pos() == b + 4 + 4 * k);
                let v = r.read_be_u32();
                if v.is_err() {
                    return Err(Error::UnexpectedEof);
                }
                v.unwrap()
            };
            numbers.push(item);
            k = k + 1;
            assert(r.pos() == b + 4 + size * k) by (nonlinear_arith)
                requires r.pos() == b + 4 + size * (k - 1) + size;
        }
        assert(r.pos() == vl_table(d, b));
        let entry_count = match r.read_be_u16() {
            Ok(v) => v,
            Err(e) => {
                return Err(e);
            },
        };
        let mut offsets: Vec<u32> = Vec::new();
        let mut k: u32 = 0;
        while k < entry_count as u32 + 1
            invariant
                r.data() == d,
                r.order() == old(r).order(),
                d == old(r).data(),
                b == old(r).pos(),
                b + 4 <= d.len(),
                offset == be_u32(d, b),
                size == 2 || size == 4,
                offset >= 4,
                offset % size == 0,
                entry_count == vl_entries(d, b),
                k <= entry_count + 1,
                r.pos() == vl_table(d, b) + 2 + 4 * k,
                r.pos() <= d.len(),
                offsets@.len() == k,
                forall|j: int| 0 <= j < k ==> #[trigger] offsets@[j] == vl_off(d, b, j),
            decreases entry_count + 1 - k,
        {
            let v = match r.read_be_u32() {
                Ok(v) => v,
                Err(e) => {
                    return Err(e);
                },
            };
            offsets.push(v);
            k = k + 1;
        }
        let entry_start = r.stream_position();
        let total = r.stream_len();
        let mut i: usize = 0;
        while i < entry_count as usize
            invariant
                d == old(r).data(),
                b == old(r).pos(),
                b + 4 <= d.len(),
                offset == be_u32(d, b),
                offset >= 4,
                offset % size == 0,
                entry_start == vl_start(d, b),
                entry_start <= d.len(),
                offsets@.len() == entry_count + 1,
                entry_count == vl_entries(d, b),
                forall|j: int| 0 <= j <= entry_count ==> #[trigger] offsets@[j] == vl_off(d, b, j),
                i <= entry_count,
                forall|j: int| 0 <= j < i ==> #[trigger] vl_off(d, b, j) <= vl_off(d, b, j + 1),
            decreases entry_count - i,
        {
            if offsets[i] > offsets[i + 1] {
                assert(!(vl_off(d, b, i as int) <= vl_off(d, b, i + 1)));
                return Err(Error::InvalidData);
            }
            i = i + 1;
        }
        let last = offsets[entry_count as usize];
        if last as usize > total - entry_start {
            return Err(Error::InvalidData);
        }
        let reader = *r;
        Ok(VList { numbers, entry_count, entry_start, offsets, reader, base: Ghost(b), size: Ghost(size as int) })
    }

    /// Fixed number `index`, if the list has that many.
    pub fn fixed_number(&self, index: usize) -> (n: Option<u32>)
        requires
            self.inv(),
        ensures
            n == if index < vl_count(self.spec_data(), self.spec_base(), self.spec_size()) {
                Some(vl_number(self.spec_data(), self.spec_base(), self.spec_size(), index as int) as u32)
            } else {
                None::<u32>
            },
    {
        if index < self.numbers.len() {
            Some(self.numbers[index])
        } else {
            None
        }
    }

    /// A reader over item `index`; absent past the last item or when the item is empty.
    pub fn get(&self, index: usize) -> (r: Option<Reader<'a>>)
        requires
            self.inv(),
        ensures
            r is Some <==> vl_item(self.spec_data(), self.spec_base(), index as int) is Some,
            r is Some ==> r.unwrap().pos() == 0 && r.unwrap().order() == self.spec_order() && r.unwrap().data() == vl_item(
                self.spec_data(),
                self.spec_base(),
                index as int,
            ).unwrap(),
    {
        if index >= self.offsets.len() - 1 {
            return None;
        }
        let position = self.offsets[index] as usize;
        let end = self.offsets[index + 1] as usize;
        if end == position {
            return None;
        }
        proof {
            lemma_offsets_bound(self.offsets@, index as int + 1);
            assert(self.offsets@[index as int] <= self.offsets@[index + 1]);
        }
        Some(self.reader.subset(self.entry_start + position, end - position))
    }

    /// Item `index` read as a length-prefixed string; absent as `get` is.
    pub fn try_get_as_pascal_str(&self, index: usize) -> (r: Result<Option<String>, Error>)
        requires
            self.inv(),
        ensures
            match vl_string(self.spec_data(), self.spec_base(), index as int) {
                Ok(None) => r == Ok::<Option<String>, Error>(None),
                Ok(Some(t)) => r is Ok && r.unwrap() is Some && r.unwrap().unwrap()@ == t,
                Err(()) => r is Err,
            },
            r is Err ==> r->Err_0.spec_kind() == ErrorKind::InvalidData,
    {
        match self.get(index) {
            None => Ok(None),
            Some(mut item) => {
                let s = item.read_pascal_str()?;
                Ok(Some(s))
            },
        }
    }

    /// The non-empty items from the first, up to the first empty one.
    pub fn entries(&'a self) -> (e: VListEntries<'a>)
        requires
            self.inv(),
        ensures
            e.wf(),
            e.index() == 0,
            e.list() == *self,
    {
        VListEntries { vlist: self, index: 0 }
    }
}

proof fn lemma_offsets_bound(offs: Seq<u32>, k: int)
    requires
        offs.len() >= 1,
        0 <= k < offs.len(),
        forall|j: int| 0 <= j < offs.len() - 1 ==> #[trigger] offs[j] <= offs[j + 1],
    ensures
        offs[k] <= offs[offs.len() - 1],
    decreases offs.len() - k,
{
    if k < offs.len() - 1 {
        lemma_offsets_bound(offs, k + 1);
    }
}

/// The items of a list in order, stopping at the first absent one.
pub struct VListEntries<'a> {
    vlist: &'a VList<'a>,
    index: usize,
}

impl<'a> VListEntries<'a> {
    pub closed spec fn wf(&self) -> bool {
        self.vlist.inv()
    }

    /// Index of the next item.
    pub closed spec fn index(&self) -> int {
        self.index as int
    }

    /// The list walked.
    pub closed spec fn list(&self) -> VList<'a> {
        *self.vlist
    }

    /// Item `index()` of the list, or `None` when it is absent or empty.
    pub fn next(&mut self) -> (item: Option<VListItem<'a>>)
        requires
            old(self).wf(),
        ensures
            final(self).wf(),
            final(self).list() == old(self).list(),
            final(self).index() == if old(self).index() < usize::MAX { old(self).index() + 1 } else { old(self).index() },
            ({
                let l = old(self).list();
                let it = vl_item(l.spec_data(), l.spec_base(), old(self).index());
                &&& item is Some <==> it is Some
                &&& item is Some ==> item.unwrap().spec_data() == it.unwrap()
            }),
    {
        let index = self.index;
        if self.index < usize::MAX {
            self.index = self.index + 1;
        }
        match self.vlist.get(index) {
            Some(r) => Some(VListItem { r }),
            None => None,
        }
    }
}

/// One item of a list.
pub struct VListItem<'a> {
    r: Reader<'a>,
}

impl<'a> VListItem<'a> {
    pub closed spec fn spec_data(&self) -> Seq<u8> {
        self.r.data()
    }

    /// A reader over the item's bytes.
    pub fn reader(&self) -> (r: Reader<'a>)
        ensures
            r.data() == self.spec_data(),
    {
        self.r
    }
}

} // verus!
