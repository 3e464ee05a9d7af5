use vstd::prelude::*;

use crate::error::Error;
use crate::reader::{be_u16, be_u32, signed32, ByteOrder, Reader};
use crate::tags::{Tag, TAG_STXT};

use super::Chunk;

verus! {

/// Where a style run begins in the text.
#[derive(Debug, Clone, Copy, PartialEq, Eq, Structural)]
pub struct StyleRun {
    pub start_offset: i32,
}

/// Text with its style runs.
#[derive(Debug)]
pub struct StyledText {
    pub text: Vec<u8>,
    pub style_runs: Vec<StyleRun>,
}

/// Length of the text.
pub open spec fn st_text_len(p: Seq<u8>) -> int {
    be_u32(p, 4)
}

/// Number of style runs, stored after the text.
pub open spec fn st_runs(p: Seq<u8>) -> int {
    be_u16(p, 12 + st_text_len(p))
}

/// Offset of style run `k`.
pub open spec fn st_run_at(p: Seq<u8>, k: int) -> int {
    14 + st_text_len(p) + 20 * k
}

/// A 12-byte header, the text, a run count agreeing with the style size,
/// and each run's start offset in bounds (the reserved bytes of the last run may be cut short).
pub open spec fn st_valid(p: Seq<u8>) -> bool {
    &&& p.len() >= 12
    &&& be_u32(p, 0) == 12
    &&& 14 + st_text_len(p) <= p.len()
    &&& be_u32(p, 8) == 20 * st_runs(p) + 2
    &&& st_runs(p) == 0 || st_run_at(p, st_runs(p) - 1) + 4 <= p.len()
}

impl Chunk for StyledText {
    open spec fn spec_tag() -> u32 {
        TAG_STXT
    }

    open spec fn parsed(payload: Seq<u8>, order: ByteOrder, id: u32, v: Self) -> bool {
        &&& st_valid(payload)
        &&& v.text@ == payload.subrange(12, 12 + st_text_len(payload))
        &&& v.style_runs@.len() == st_runs(payload)
        &&& forall|k: int| 0 <= k < st_runs(payload) ==> (#[trigger] v.style_runs@[k]).start_offset == signed32(
            be_u32(payload, st_run_at(payload, k)),
        )
    }

    open spec fn refused(payload: Seq<u8>, order: ByteOrder) -> bool {
        !st_valid(payload)
    }

    fn tag() -> (t: Tag) {
        Tag(TAG_STXT)
    }

    #[verifier::loop_isolation(false)]
    fn read(r: &mut Reader, _id: u32) -> (res: Result<Self, Error>) {
        let mut c = r.remaining();
        let ghost p = c.data();
        let header_size = c.read_be_u32()?;
        let text_size = c.read_be_u32()? as usize;
        let style_size = c.read_be_u32()?;
        if header_size != 12 {
            return Err(Error::InvalidData);
        }
        let text = c.read_bytes(text_size)?;
        let style_run_count = c.read_be_u16()?;
        if style_size as u64 != 20 * style_run_count as u64 + 2 {
            return Err(Error::InvalidData);
        }
        let mut style_runs: Vec<StyleRun> = Vec::new();
        let mut k: u16 = 0;
        proof {
            c.lemma_pos();
        }
        while k < style_run_count
            invariant
                c.data() == p,
                k <= style_run_count,
                k < style_run_count ==> c.pos() == st_run_at(p, k as int),
                k > 0 ==> st_run_at(p, k - 1) + 4 <= p.len(),
                style_runs@.len() == k,
                forall|j: int| 0 <= j < k ==> (#[trigger] style_runs@[j]).start_offset == signed32(be_u32(p, st_run_at(p, j))),
            decreases style_run_count - k,
        {
            let start_offset = c.read_be_i32()?;
            style_runs.push(StyleRun { start_offset });
            if k + 1 < style_run_count {
                let next = c.stream_position();
                let _total = c.stream_len();
                if c.stream_remain() < 16 {
                    return Err(Error::UnexpectedEof);
                }
                c.seek(next + 16);
            }
            k = k + 1;
        }
        Ok(StyledText { text, style_runs })
    }
}

} // verus!
