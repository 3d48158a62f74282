use vstd::prelude::*;

verus! {

/// Number of bits below the millisecond timestamp of a ULID.
pub const RAND_BITS_DIVISOR: u128 = 0x1_0000_0000_0000_0000_0000;

/// The millisecond timestamp carried in the upper 48 bits of a ULID value.
pub open spec fn timestamp_of(id: u128) -> int {
    id as int / RAND_BITS_DIVISOR as int
}

/// Relies on `ulid::Ulid::timestamp_ms`: the value shifted right by the 80 random bits.
#[verifier::external_body]
pub(crate) fn ulid_timestamp_ms(id: u128) -> (r: u64)
    ensures
        r as int == timestamp_of(id),
{
    ulid::Ulid(id).timestamp_ms()
}

/// Relies on `ulid::Ulid::new`: a fresh identifier from the clock and a random source.
#[verifier::external_body]
fn fresh_ulid() -> (r: u128) {
    ulid::Ulid::new().0
}

/// Table a record identifier belongs to.
#[derive(Clone, Copy, Debug, PartialEq, Eq, Structural, Hash)]
pub enum Tb {
    Acc,
    Room,
    Msg,
    Com,
    Rea,
}

/// Name of table `tb`.
pub open spec fn tb_name(tb: Tb) -> Seq<char> {
    match tb {
        Tb::Acc => "account"@,
        Tb::Room => "room"@,
        Tb::Msg => "msg"@,
        Tb::Com => "msg_comment"@,
        Tb::Rea => "reaction"@,
    }
}

impl Tb {
    /// Name of the table.
    pub fn name(&self) -> (r: &'static str)
        ensures
            r@ == tb_name(*self),
    {
        match self {
            Tb::Acc => "account",
            Tb::Room => "room",
            Tb::Msg => "msg",
            Tb::Com => "msg_comment",
            Tb::Rea => "reaction",
        }
    }

    /// The table named `s`, if any.
    pub fn from_name(s: &str) -> (r: Option<Tb>)
        ensures
            match r {
                Some(tb) => tb_name(tb) == s@,
                None => forall|tb: Tb| tb_name(tb) != s@,
            },
    {
        let wanted = s.to_owned();
        let all = [Tb::Acc, Tb::Room, Tb::Msg, Tb::Com, Tb::Rea];
        let mut i: usize = 0;
        while i < 5
            invariant
                0 <= i <= 5,
                all@ == seq![Tb::Acc, Tb::Room, Tb::Msg, Tb::Com, Tb::Rea],
                wanted@ == s@,
                forall|k: int| 0 <= k < i ==> tb_name(#[trigger] all@[k]) != s@,
            decreases 5 - i,
        {
            let tb = all[i];
            let candidate = tb.name().to_owned();
            if candidate.eq(&wanted) {
                assert(candidate@ == wanted@);
                return Some(tb);
            }
            i = i + 1;
        }
        assert forall|tb: Tb| tb_name(tb) != s@ by {
            match tb {
                Tb::Acc => assert(all@[0] == tb),
                Tb::Room => assert(all@[1] == tb),
                Tb::Msg => assert(all@[2] == tb),
                Tb::Com => assert(all@[3] == tb),
                Tb::Rea => assert(all@[4] == tb),
            }
        }
        None
    }
}

/// Record identifier: a table tag and the 128-bit value of a ULID.
#[derive(Clone, Copy, Debug, PartialEq, Eq, Structural, Hash)]
pub struct Id {
    pub tb: Tb,
    pub id: u128,
}

impl Id {
    /// A fresh identifier in table `tb`.
    pub fn new(tb: Tb) -> (r: Self)
        ensures
            r.tb == tb,
    {
        Id { tb, id: fresh_ulid() }
    }
}

} // verus!
