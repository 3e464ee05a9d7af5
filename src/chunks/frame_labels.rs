use vstd::prelude::*;

use crate::error::{Error, ErrorKind};
use crate::reader::{be_u16, fixed_str, ByteOrder, Reader};
use crate::tags::{Tag, TAG_VWLB};

use super::Chunk;

verus! {

/// A named frame of the score.
#[derive(Debug)]
pub struct FrameLabel {
    pub number: u16,
    pub text: String,
}

/// The frame labels chunk.
#[derive(Debug)]
pub struct FrameLabels {
    pub labels: Vec<FrameLabel>,
}

/// Number of labels.
pub open spec fn fl_count(p: Seq<u8>) -> int {
    be_u16(p, 0)
}

/// Frame number of table entry `k`.
pub open spec fn fl_frame(p: Seq<u8>, k: int) -> int {
    be_u16(p, 2 + 4 * k)
}

/// Text offset of table entry `k`.
pub open spec fn fl_off(p: Seq<u8>, k: int) -> int {
    be_u16(p, 4 + 4 * k)
}

/// Where the label texts begin, just after the table.
pub open spec fn fl_text_start(p: Seq<u8>) -> int {
    2 + 4 * (fl_count(p) + 1)
}

/// The table is complete, its offsets never decrease, and the texts fit.
pub open spec fn fl_valid(p: Seq<u8>) -> bool {
    &&& p.len() >= 2
    &&& fl_text_start(p) <= p.len()
    &&& forall|k: int| 0 <= k < fl_count(p) ==> #[trigger] fl_off(p, k) <= fl_off(p, k + 1)
    &&& fl_text_start(p) + fl_off(p, fl_count(p)) - fl_off(p, 0) <= p.len()
}

/// The text of label `k`: the texts follow one another from the end of the table.
pub open spec fn fl_text(p: Seq<u8>, k: int) -> Seq<char> {
    let t = fl_text_start(p) - fl_off(p, 0);
    fixed_str(p.subrange(t + fl_off(p, k), t + fl_off(p, k + 1)))
}

proof fn lemma_offsets_monotone(p: Seq<u8>, i: int, j: int)
    requires
        forall|k: int| 0 <= k < fl_count(p) ==> #[trigger] fl_off(p, k) <= fl_off(p, k + 1),
        0 <= i <= j <= fl_count(p),
    ensures
        fl_off(p, i) <= fl_off(p, j),
    decreases j - i,
{
    if i < j {
        lemma_offsets_monotone(p, i, j - 1);
    }
}

impl FrameLabels {
    pub fn empty() -> (f: Self)
        ensures
            f.labels@.len() == 0,
    {
        FrameLabels { labels: Vec::new() }
    }

    pub fn is_empty(&self) -> (b: bool)
        ensures
            b == (self.labels@.len() == 0),
    {
        self.labels.len() == 0
    }
}

impl Chunk for FrameLabels {
    open spec fn spec_tag() -> u32 {
        TAG_VWLB
    }

    open spec fn parsed(payload: Seq<u8>, order: ByteOrder, id: u32, v: Self) -> bool {
        &&& fl_valid(payload)
        &&& v.labels@.len() == fl_count(payload)
        &&& forall|k: int|
            0 <= k < fl_count(payload) ==> (#[trigger] v.labels@[k]).number == fl_frame(payload, k)
                && v.labels@[k].text@ == fl_text(payload, k)
    }

    open spec fn refused(payload: Seq<u8>, order: ByteOrder) -> bool {
        !fl_valid(payload)
    }

    fn tag() -> (t: Tag) {
        Tag(TAG_VWLB)
    }

    fn read(r: &mut Reader, _id: u32) -> (res: Result<Self, Error>) {
        let mut c = r.remaining();
        let ghost p = c.data();
        let label_count = c.read_be_u16()?;
        let offsets = read_label_table(&mut c, label_count)?;
        if !offsets_monotone(&offsets, Ghost(p)) {
            return Err(Error::InvalidData);
        }
        let labels = read_label_texts(&mut c, &offsets, Ghost(p))?;
        Ok(FrameLabels { labels })
    }
}

fn read_label_table(c: &mut Reader, label_count: u16) -> (res: Result<Vec<(u16, u16)>, Error>)
    requires
        old(c).pos() == 2,
        old(c).data().len() >= 2,
        label_count == fl_count(old(c).data()),
    ensures
        res is Ok <==> fl_text_start(old(c).data()) <= old(c).data().len(),
        res is Ok ==> final(c).data() == old(c).data() && final(c).order() == old(c).order()
            && final(c).pos() == fl_text_start(old(c).data())
            && res.unwrap()@.len() == label_count + 1
            && forall|j: int| 0 <= j <= label_count ==> (#[trigger] res.unwrap()@[j]).0 == fl_frame(old(c).data(), j)
                && res.unwrap()@[j].1 == fl_off(old(c).data(), j),
        res is Err ==> res->Err_0.spec_kind() == ErrorKind::InvalidData,
{
    let ghost p = c.data();
    let n = label_count as usize + 1;
    let mut offsets: Vec<(u16, u16)> = Vec::new();
    let mut k: usize = 0;
    while k < n
        invariant
            c.data() == p,
            p == old(c).data(),
            c.order() == old(c).order(),
            n == fl_count(p) + 1,
            k <= n,
            c.pos() == 2 + 4 * k,
            c.pos() <= p.len(),
            offsets@.len() == k,
            forall|j: int| 0 <= j < k ==> (#[trigger] offsets@[j]).0 == fl_frame(p, j) && offsets@[j].1 == fl_off(p, j),
        decreases n - k,
    {
        let frame_number = c.read_be_u16()?;
        let text_offset = c.read_be_u16()?;
        offsets.push((frame_number, text_offset));
        k = k + 1;
    }
    Ok(offsets)
}

fn offsets_monotone(offsets: &Vec<(u16, u16)>, p: Ghost<Seq<u8>>) -> (b: bool)
    requires
        offsets@.len() == fl_count(p@) + 1,
        forall|j: int| 0 <= j <= fl_count(p@) ==> (#[trigger] offsets@[j]).1 == fl_off(p@, j),
    ensures
        b <==> forall|k: int| 0 <= k < fl_count(p@) ==> #[trigger] fl_off(p@, k) <= fl_off(p@, k + 1),
{
    let mut i: usize = 0;
    while i + 1 < offsets.len()
        invariant
            offsets@.len() == fl_count(p@) + 1,
            forall|j: int| 0 <= j <= fl_count(p@) ==> (#[trigger] offsets@[j]).1 == fl_off(p@, j),
            i + 1 <= offsets@.len(),
            forall|j: int| 0 <= j < i ==> #[trigger] fl_off(p@, j) <= fl_off(p@, j + 1),
        decreases offsets@.len() - i,
    {
        if offsets[i].1 > offsets[i + 1].1 {
            assert(!(fl_off(p@, i as int) <= fl_off(p@, i + 1)));
            return false;
        }
        i = i + 1;
    }
    true
}

fn read_label_texts(c: &mut Reader, offsets: &Vec<(u16, u16)>, p: Ghost<Seq<u8>>) -> (res: Result<
    Vec<FrameLabel>,
    Error,
>)
    requires
        old(c).data() == p@,
        p@.len() >= 2,
        old(c).pos() == fl_text_start(p@),
        fl_text_start(p@) <= p@.len(),
        offsets@.len() == fl_count(p@) + 1,
        forall|j: int| 0 <= j <= fl_count(p@) ==> (#[trigger] offsets@[j]).0 == fl_frame(p@, j) && offsets@[j].1 == fl_off(p@, j),
        forall|k: int| 0 <= k < fl_count(p@) ==> #[trigger] fl_off(p@, k) <= fl_off(p@, k + 1),
    ensures
        res is Ok <==> fl_valid(p@),
        res is Ok ==> res.unwrap()@.len() == fl_count(p@) && forall|k: int|
            0 <= k < fl_count(p@) ==> (#[trigger] res.unwrap()@[k]).number == fl_frame(p@, k)
                && res.unwrap()@[k].text@ == fl_text(p@, k),
        res is Err ==> res->Err_0.spec_kind() == ErrorKind::InvalidData,
{
    let n = offsets.len() - 1;
    let mut labels: Vec<FrameLabel> = Vec::new();
    let mut i: usize = 0;
    proof {
        lemma_offsets_monotone(p@, 0, n as int);
    }
    while i < n
        invariant
            c.data() == p@,
            n == fl_count(p@),
            offsets@.len() == n + 1,
            forall|j: int| 0 <= j <= fl_count(p@) ==> (#[trigger] offsets@[j]).0 == fl_frame(p@, j) && offsets@[j].1 == fl_off(p@, j),
            forall|k: int| 0 <= k < fl_count(p@) ==> #[trigger] fl_off(p@, k) <= fl_off(p@, k + 1),
            fl_off(p@, 0) <= fl_off(p@, n as int),
            i <= n,
            c.pos() == fl_text_start(p@) + fl_off(p@, i as int) - fl_off(p@, 0),
            c.pos() <= p@.len(),
            labels@.len() == i,
            forall|j: int|
                0 <= j < i ==> (#[trigger] labels@[j]).number == fl_frame(p@, j) && labels@[j].text@
                    == fl_text(p@, j),
        decreases n - i,
    {
        let (number, offset0) = offsets[i];
        let offset1 = offsets[i + 1].1;
        assert(offset0 <= offset1);
        proof {
            lemma_offsets_monotone(p@, 0, i as int);
            lemma_offsets_monotone(p@, i + 1, n as int);
        }
        let text = match c.read_fixed_str((offset1 - offset0) as usize) {
            Ok(t) => t,
            Err(e) => {
                assert(!fl_valid(p@));
                return Err(e);
            },
        };
        labels.push(FrameLabel { number, text });
        i = i + 1;
    }
    Ok(labels)
}

} // verus!
