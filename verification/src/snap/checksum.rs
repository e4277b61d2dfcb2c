//! The checksum that guards each range file.
//!
//! It is the Adler-32 sum: two running sums modulo 65521, fed byte by byte,
//! so that a file is summed while it streams and never held in memory.

use vstd::prelude::*;
use vstd::arithmetic::div_mod::lemma_add_mod_noop;

verus! {

/// The modulus of both running sums: the largest prime below 2^16.
pub const ADLER_MOD: u32 = 65521;

/// The sums before any byte is fed.
pub open spec fn start_sums() -> (nat, nat) {
    (1, 0)
}

/// The two running sums after `bytes` are fed to sums that stood at `s`.
pub open spec fn fed(s: (nat, nat), bytes: Seq<u8>) -> (nat, nat)
    decreases bytes.len(),
{
    if bytes.len() == 0 {
        s
    } else {
        let p = fed(s, bytes.drop_last());
        let a = (p.0 + bytes.last() as nat) % (ADLER_MOD as nat);
        (a, (p.1 + a) % (ADLER_MOD as nat))
    }
}

/// The 32-bit value of a pair of sums: the second sum in the high half.
pub open spec fn digest_of(s: (nat, nat)) -> u32 {
    (s.1 * 65536 + s.0) as u32
}

/// The checksum of a whole file.
pub open spec fn checksum_of(bytes: Seq<u8>) -> u32 {
    digest_of(fed(start_sums(), bytes))
}

/// The plain sum of the bytes.
pub open spec fn byte_sum(bytes: Seq<u8>) -> nat
    decreases bytes.len(),
{
    if bytes.len() == 0 {
        0
    } else {
        byte_sum(bytes.drop_last()) + bytes.last() as nat
    }
}

/// A checksum in progress.
#[derive(Clone, Copy, Debug)]
pub struct Checksum {
    a: u32,
    b: u32,
}

impl View for Checksum {
    type V = (nat, nat);

    closed spec fn view(&self) -> (nat, nat) {
        (self.a as nat, self.b as nat)
    }
}

impl Checksum {
    #[verifier::type_invariant]
    spec fn inv(self) -> bool {
        self.a < ADLER_MOD && self.b < ADLER_MOD
    }

    /// The checksum of no bytes yet.
    pub fn new() -> (c: Checksum)
        ensures
            c@ == start_sums(),
    {
        Checksum { a: 1, b: 0 }
    }

    /// Feeds the next bytes of the file.
    pub fn update(&mut self, chunk: &[u8])
        ensures
            final(self)@ == fed(old(self)@, chunk@),
    {
        proof {
            use_type_invariant(&*self);
        }
        let mut a: u32 = self.a;
        let mut b: u32 = self.b;
        let mut i: usize = 0;
        proof {
            assert(chunk@.take(0) =~= Seq::<u8>::empty());
        }
        while i < chunk.len()
            invariant
                i <= chunk.len(),
                a < ADLER_MOD,
                b < ADLER_MOD,
                (a as nat, b as nat) == fed(old(self)@, chunk@.take(i as int)),
            decreases chunk.len() - i,
        {
            proof {
                assert(chunk@.take(i + 1).drop_last() =~= chunk@.take(i as int));
                assert(chunk@.take(i + 1).last() == chunk@[i as int]);
            }
            a = (a + chunk[i] as u32) % ADLER_MOD;
            b = (b + a) % ADLER_MOD;
            i += 1;
        }
        proof {
            assert(chunk@.take(chunk.len() as int) =~= chunk@);
        }
        self.a = a;
        self.b = b;
    }

    /// The checksum of the bytes fed so far.
    pub fn digest(&self) -> (d: u32)
        ensures
            d == digest_of(self@),
    {
        proof {
            use_type_invariant(self);
        }
        self.b * 65536 + self.a
    }
}

/// The checksum of `bytes`, summed in one go.
pub fn checksum(bytes: &[u8]) -> (d: u32)
    ensures
        d == checksum_of(bytes@),
{
    let mut c = Checksum::new();
    c.update(bytes);
    c.digest()
}

/// Feeding a file in pieces gives the same sums as feeding it whole.
pub proof fn law_fed_in_chunks(s: (nat, nat), x: Seq<u8>, y: Seq<u8>)
    ensures
        fed(fed(s, x), y) == fed(s, x + y),
    decreases y.len(),
{
    if y.len() == 0 {
        assert(x + y =~= x);
    } else {
        law_fed_in_chunks(s, x, y.drop_last());
        assert((x + y).drop_last() =~= x + y.drop_last());
        assert((x + y).last() == y.last());
    }
}

/// Both sums stay below the modulus, and the first is the sum of the bytes
/// on top of where it started.
pub proof fn lemma_fed_first_sum(s: (nat, nat), bytes: Seq<u8>)
    requires
        s.0 < ADLER_MOD,
        s.1 < ADLER_MOD,
    ensures
        fed(s, bytes).0 < ADLER_MOD,
        fed(s, bytes).1 < ADLER_MOD,
        fed(s, bytes).0 == (s.0 + byte_sum(bytes)) % (ADLER_MOD as nat),
    decreases bytes.len(),
{
    if bytes.len() > 0 {
        let d = bytes.drop_last();
        lemma_fed_first_sum(s, d);
        lemma_add_mod_noop(
            (s.0 + byte_sum(d)) as int,
            bytes.last() as int,
            ADLER_MOD as int,
        );
    }
}

/// Changing one byte changes the plain sum by the difference of the two
/// values.
pub proof fn lemma_byte_sum_update(bytes: Seq<u8>, i: int, v: u8)
    requires
        0 <= i < bytes.len(),
    ensures
        byte_sum(bytes.update(i, v)) + bytes[i] == byte_sum(bytes) + v,
    decreases bytes.len(),
{
    let n = bytes.update(i, v);
    if i == bytes.len() - 1 {
        assert(n.drop_last() =~= bytes.drop_last());
    } else {
        lemma_byte_sum_update(bytes.drop_last(), i, v);
        assert(n.drop_last() =~= bytes.drop_last().update(i, v));
    }
}

/// A file in which any one byte was changed has another checksum.
pub proof fn law_byte_change_detected(bytes: Seq<u8>, i: int, v: u8)
    requires
        0 <= i < bytes.len(),
        v != bytes[i],
    ensures
        checksum_of(bytes.update(i, v)) != checksum_of(bytes),
{
    let n = bytes.update(i, v);
    lemma_fed_first_sum(start_sums(), bytes);
    lemma_fed_first_sum(start_sums(), n);
    lemma_byte_sum_update(bytes, i, v);
    let x = fed(start_sums(), bytes);
    let y = fed(start_sums(), n);
    // the first sums differ by less than the modulus, and not by zero
    assert(x.0 != y.0);
    assert(x.1 * 65536 + x.0 != y.1 * 65536 + y.0);
    assert(x.1 * 65536 + x.0 < 0x1_0000_0000 && y.1 * 65536 + y.0 < 0x1_0000_0000);
}

} // verus!
