//! Short identifiers minted from counters.

use vstd::prelude::*;

verus! {

/// The 30 characters of short identifiers: lower-case letters and digits, without
/// the easily confused `i`, `l`, `o`, `u`, `0` and `1`.
pub open spec fn short_alphabet() -> Seq<char> {
    seq![
        'a', 'b', 'c', 'd', 'e', 'f', 'g', 'h', 'j', 'k', 'm', 'n', 'p', 'q', 'r', 's', 't', 'v',
        'w', 'x', 'y', 'z', '2', '3', '4', '5', '6', '7', '8', '9',
    ]
}

/// A counter value whose three lowest base-32 digits each name a character of the
/// alphabet; minting any other value fails.
pub open spec fn mintable(value: u64) -> bool {
    value % 32 < 30 && (value / 32) % 32 < 30 && (value / 1024) % 32 < 30
}

/// The three-character id of `value`: its three lowest base-32 digits, most
/// significant first, each spelled by the alphabet.
pub open spec fn short_token(value: u64) -> Seq<char> {
    seq![
        short_alphabet()[((value / 1024) % 32) as int],
        short_alphabet()[((value / 32) % 32) as int],
        short_alphabet()[(value % 32) as int],
    ]
}

/// Mints short identifiers from a counter value.
pub struct ShortIdMint {
    value: u64,
}

impl ShortIdMint {
    pub closed spec fn value(&self) -> u64 {
        self.value
    }

    pub fn new(value: u64) -> (mint: Self)
        ensures
            mint.value() == value,
    {
        ShortIdMint { value }
    }

    /// The three-character id of the counter value (see `short_token`).
    pub fn token(&self) -> (text: String)
        requires
            mintable(self.value()),
        ensures
            text@ == short_token(self.value()),
    {
        let alphabet = "abcdefghjkmnpqrstvwxyz23456789";
        proof {
            reveal_strlit("abcdefghjkmnpqrstvwxyz23456789");
            assert(alphabet@ =~= short_alphabet());
        }
        let high = ((self.value / 1024) % 32) as usize;
        let middle = ((self.value / 32) % 32) as usize;
        let low = (self.value % 32) as usize;
        let mut text = String::from_str(alphabet.substring_char(high, high + 1));
        text.append(alphabet.substring_char(middle, middle + 1));
        text.append(alphabet.substring_char(low, low + 1));
        assert(text@ =~= short_token(self.value()));
        text
    }

    /// The id as a stable item id.
    pub fn stable_item_id(&self) -> (id: String)
        requires
            mintable(self.value()),
        ensures
            id@ == short_token(self.value()),
    {
        self.token()
    }

    /// The id as an operation id.
    pub fn operation_id(&self) -> (id: String)
        requires
            mintable(self.value()),
        ensures
            id@ == short_token(self.value()),
    {
        self.token()
    }

    /// The id as a display id.
    pub fn display_id(&self) -> (id: String)
        requires
            mintable(self.value()),
        ensures
            id@ == short_token(self.value()),
    {
        self.token()
    }
}

/// The 26 lower-case letters.
pub open spec fn lower_alphabet() -> Seq<char> {
    seq![
        'a', 'b', 'c', 'd', 'e', 'f', 'g', 'h', 'i', 'j', 'k', 'l', 'm', 'n', 'o', 'p', 'q', 'r',
        's', 't', 'u', 'v', 'w', 'x', 'y', 'z',
    ]
}

/// The base-26 digits of `value`, least significant first; zero has the one digit 0.
pub open spec fn base26_digits(value: nat) -> Seq<int>
    decreases value,
{
    if value < 26 {
        seq![(value % 26) as int]
    } else {
        seq![(value % 26) as int] + base26_digits(value / 26)
    }
}

/// The base-26 digits of `value` above the lowest, if any remain.
pub open spec fn base26_rest(value: nat) -> Seq<int> {
    if value == 0 {
        Seq::empty()
    } else {
        base26_digits(value)
    }
}

/// `digits` padded with zeros to at least three digits.
pub open spec fn padded(digits: Seq<int>) -> Seq<int> {
    if digits.len() >= 3 {
        digits
    } else {
        digits + Seq::new((3 - digits.len()) as nat, |index: int| 0int)
    }
}

/// `digits` last to first, each spelled by the lower-case alphabet.
pub open spec fn spelled_backwards(digits: Seq<int>) -> Seq<char>
    decreases digits.len(),
{
    if digits.len() == 0 {
        Seq::empty()
    } else {
        spelled_backwards(digits.subrange(1, digits.len() as int)) + seq![lower_alphabet()[digits[0]]]
    }
}

/// The compact id of `value`: its base-26 digits, most significant first, padded on
/// the left with `a` to at least three letters, spelled `a` to `z`.
pub open spec fn compact_graph_id(value: u64) -> Seq<char> {
    spelled_backwards(padded(base26_digits(value as nat)))
}

proof fn lemma_base26_digits_bounded(value: nat)
    ensures
        forall|k: int| 0 <= k < base26_digits(value).len() ==> 0 <= #[trigger] base26_digits(value)[k] < 26,
    decreases value,
{
    if value >= 26 {
        lemma_base26_digits_bounded(value / 26);
        assert forall|k: int| 0 <= k < base26_digits(value).len() implies 0
            <= #[trigger] base26_digits(value)[k] < 26 by {
            if k > 0 {
                assert(base26_digits(value)[k] == base26_digits(value / 26)[k - 1]);
            }
        }
    }
}

/// Mints compact graph ids from a counter value.
pub struct CompactGraphId {
    value: u64,
}

impl CompactGraphId {
    pub closed spec fn value(&self) -> u64 {
        self.value
    }

    pub fn new(value: u64) -> (id: Self)
        ensures
            id.value() == value,
    {
        CompactGraphId { value }
    }

    /// The compact id of the value (see `compact_graph_id`).
    pub fn into_string(self) -> (text: String)
        ensures
            text@ == compact_graph_id(self.value()),
    {
        let alphabet = "abcdefghijklmnopqrstuvwxyz";
        proof {
            reveal_strlit("abcdefghijklmnopqrstuvwxyz");
            assert(alphabet@ =~= lower_alphabet());
            lemma_base26_digits_bounded(self.value as nat);
        }
        let ghost original = self.value as nat;
        let mut digits: Vec<usize> = Vec::new();
        digits.push((self.value % 26) as usize);
        let mut value = self.value / 26;
        assert(digits@.map_values(|digit: usize| digit as int) =~= seq![(original % 26) as int]);
        while value > 0
            invariant
                base26_digits(original) == digits@.map_values(|digit: usize| digit as int)
                    + base26_rest(value as nat),
                digits@.len() >= 1,
            decreases value,
        {
            let ghost before = digits@.map_values(|digit: usize| digit as int);
            digits.push((value % 26) as usize);
            assert(digits@.map_values(|digit: usize| digit as int) =~= before.push(
                (value % 26) as int,
            ));
            assert(base26_rest(value as nat) == seq![(value % 26) as int] + base26_rest(
                (value / 26) as nat,
            ));
            assert(before + base26_rest(value as nat) =~= before.push((value % 26) as int)
                + base26_rest((value / 26) as nat));
            value = value / 26;
        }
        assert(base26_digits(original) =~= digits@.map_values(|digit: usize| digit as int));
        let ghost unpadded = digits@.map_values(|digit: usize| digit as int);
        while digits.len() < 3
            invariant
                digits@.len() >= 1,
                unpadded.len() >= 1,
                unpadded.len() <= digits@.len(),
                unpadded.len() < 3 ==> digits@.len() <= 3,
                unpadded.len() >= 3 ==> digits@.len() == unpadded.len(),
                digits@.map_values(|digit: usize| digit as int) == unpadded + Seq::new(
                    (digits@.len() - unpadded.len()) as nat,
                    |index: int| 0int,
                ),
            decreases 3 - digits.len(),
        {
            let ghost before = digits@.map_values(|digit: usize| digit as int);
            digits.push(0);
            assert(digits@.map_values(|digit: usize| digit as int) =~= before.push(0int));
            assert(digits@.map_values(|digit: usize| digit as int) =~= unpadded + Seq::new(
                (digits@.len() - unpadded.len()) as nat,
                |index: int| 0int,
            ));
        }
        let ghost all_digits = digits@.map_values(|digit: usize| digit as int);
        assert(all_digits =~= padded(unpadded));
        assert forall|k: int| 0 <= k < all_digits.len() implies 0 <= #[trigger] all_digits[k] < 26 by {
            if k < unpadded.len() {
                assert(unpadded[k] == base26_digits(original)[k]);
            }
        }
        let mut text = String::new();
        let mut index = digits.len();
        while index > 0
            invariant
                index <= digits@.len(),
                all_digits == digits@.map_values(|digit: usize| digit as int),
                forall|k: int| 0 <= k < all_digits.len() ==> 0 <= #[trigger] all_digits[k] < 26,
                alphabet@ == lower_alphabet(),
                text@ == spelled_backwards(all_digits.subrange(index as int, all_digits.len() as int)),
            decreases index,
        {
            index = index - 1;
            let digit = digits[index];
            assert(all_digits[index as int] == digit as int);
            let ghost tail = all_digits.subrange(index as int, all_digits.len() as int);
            assert(tail.subrange(1, tail.len() as int) =~= all_digits.subrange(
                index as int + 1,
                all_digits.len() as int,
            ));
            let piece = alphabet.substring_char(digit, digit + 1);
            assert(piece@ =~= seq![lower_alphabet()[digit as int]]);
            text.append(piece);
        }
        assert(all_digits.subrange(0, all_digits.len() as int) =~= all_digits);
        text
    }
}

} // verus!
