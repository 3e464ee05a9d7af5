use vstd::prelude::*;

verus! {

/// The raw version words at which each Director release begins, with the
/// release number times one hundred.
pub open spec fn version_table() -> Seq<(int, int)> {
    seq![
        (0x404, 300), (0x405, 310), (0x45B, 400), (0x45D, 404), (0x4B1, 500), (0x4C2, 600),
        (0x4C8, 700), (0x582, 800), (0x6A4, 850), (0x73B, 1000), (0x781, 1100), (0x782, 1150),
        (0x79F, 1200),
    ]
}

/// The release of a raw version word: that of the last table key not above
/// it, or the first release for words below every key.
pub open spec fn human_version(v: int) -> int {
    if v >= 0x79F {
        1200
    } else if v >= 0x782 {
        1150
    } else if v >= 0x781 {
        1100
    } else if v >= 0x73B {
        1000
    } else if v >= 0x6A4 {
        850
    } else if v >= 0x582 {
        800
    } else if v >= 0x4C8 {
        700
    } else if v >= 0x4C2 {
        600
    } else if v >= 0x4B1 {
        500
    } else if v >= 0x45D {
        404
    } else if v >= 0x45B {
        400
    } else if v >= 0x405 {
        310
    } else {
        300
    }
}

/// A raw version word with the release it maps to.
#[derive(Debug, Clone, Copy, PartialEq, Eq, Structural)]
pub struct Version {
    version: u16,
    human_version: u16,
}

impl Version {
    pub closed spec fn raw_spec(self) -> int {
        self.version as int
    }

    pub closed spec fn human_spec(self) -> int {
        self.human_version as int
    }

    pub fn new(version: u16) -> (v: Self)
        ensures
            v.raw_spec() == version,
            v.human_spec() == human_version(version as int),
    {
        let table: [(u16, u16); 13] = [
            (0x404, 300),
            (0x405, 310),
            (0x45B, 400),
            (0x45D, 404),
            (0x4B1, 500),
            (0x4C2, 600),
            (0x4C8, 700),
            (0x582, 800),
            (0x6A4, 850),
            (0x73B, 1000),
            (0x781, 1100),
            (0x782, 1150),
            (0x79F, 1200),
        ];
        assert(table@.len() == 13);
        let ghost t = table@;
        assert forall|i: int| 0 <= i < 13 implies (t[i].0 as int, t[i].1 as int)
            == version_table()[i] by {
            assert(t =~= seq![
                (0x404u16, 300u16), (0x405u16, 310u16), (0x45Bu16, 400u16), (0x45Du16, 404u16),
                (0x4B1u16, 500u16), (0x4C2u16, 600u16), (0x4C8u16, 700u16), (0x582u16, 800u16),
                (0x6A4u16, 850u16), (0x73Bu16, 1000u16), (0x781u16, 1100u16),
                (0x782u16, 1150u16), (0x79Fu16, 1200u16),
            ]);
        }
        let mut human = table[0].1;
        let mut i: usize = 0;
        while i < 13
            invariant
                i <= 13,
                t == table@,
                forall|j: int| 0 <= j < 13 ==> (t[j].0 as int, t[j].1 as int) == version_table()[j],
                human == last_release(version as int, i as int),
            decreases 13 - i,
        {
            if version >= table[i].0 {
                human = table[i].1;
            }
            i = i + 1;
        }
        proof {
            lemma_last_release_full(version as int);
        }
        Version { version, human_version: human }
    }

    pub fn major(self) -> (m: u16)
        ensures
            m == self.human_spec() / 100,
    {
        self.human_version / 100
    }

    pub fn minor(self) -> (m: u16)
        ensures
            m == self.human_spec() % 100,
    {
        self.human_version % 100
    }

    /// The raw version word.
    pub fn raw(self) -> (r: u16)
        ensures
            r == self.raw_spec(),
    {
        self.version
    }
}

impl Default for Version {
    fn default() -> (v: Self)
        ensures
            v.raw_spec() == 300,
            v.human_spec() == 300,
    {
        Version::new(300)
    }
}

/// The release chosen after scanning the first `n` table entries in order.
pub open spec fn last_release(v: int, n: int) -> int
    decreases n,
{
    if n <= 0 {
        300
    } else if v >= version_table()[n - 1].0 {
        version_table()[n - 1].1
    } else {
        last_release(v, n - 1)
    }
}

proof fn lemma_last_release_full(v: int)
    ensures
        last_release(v, 13) == human_version(v),
{
    reveal_with_fuel(last_release, 14);
}

/// Each tabulated key maps to its own release, and a word between two
/// consecutive keys maps to the release of the lower one.
pub proof fn lemma_version_lookup(i: int, v: int)
    requires
        0 <= i < 13,
        version_table()[i].0 <= v,
        i + 1 < 13 ==> v < version_table()[i + 1].0,
    ensures
        human_version(v) == version_table()[i].1,
{
}

} // verus!
