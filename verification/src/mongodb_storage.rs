//! The stored form of the state of a dialogue.

use vstd::prelude::*;

verus! {

/// The stored state of the dialogue of one chat: its bytes, one number
/// each.
pub struct Dialogue {
    pub chat_id: i64,
    pub dialogue: Vec<u32>,
}

/// The bytes as numbers.
pub open spec fn widened(bytes: Seq<u8>) -> Seq<u32> {
    Seq::new(bytes.len(), |i: int| bytes[i] as u32)
}

/// The numbers as bytes: of each number its lowest eight bits.
pub open spec fn narrowed(numbers: Seq<u32>) -> Seq<u8> {
    Seq::new(numbers.len(), |i: int| (numbers[i] % 256) as u8)
}

impl Dialogue {
    /// The record for the serialised state `bytes` of the chat `chat_id`.
    pub fn from_bytes(chat_id: i64, bytes: &[u8]) -> (record: Self)
        ensures
            record.chat_id == chat_id,
            record.dialogue@ == widened(bytes@),
    {
        let mut dialogue: Vec<u32> = Vec::new();
        let mut i: usize = 0;
        while i < bytes.len()
            invariant
                i <= bytes@.len(),
                dialogue@ == widened(bytes@.take(i as int)),
            decreases bytes@.len() - i,
        {
            dialogue.push(bytes[i] as u32);
            proof {
                assert(dialogue@ =~= widened(bytes@.take(i + 1)));
            }
            i += 1;
        }
        proof {
            assert(bytes@.take(i as int) =~= bytes@);
        }
        Dialogue { chat_id, dialogue }
    }

    /// The serialised state that the record holds.
    pub fn to_bytes(&self) -> (bytes: Vec<u8>)
        ensures
            bytes@ == narrowed(self.dialogue@),
    {
        let mut bytes: Vec<u8> = Vec::new();
        let mut i: usize = 0;
        while i < self.dialogue.len()
            invariant
                i <= self.dialogue@.len(),
                bytes@ == narrowed(self.dialogue@.take(i as int)),
            decreases self.dialogue@.len() - i,
        {
            bytes.push((self.dialogue[i] % 256) as u8);
            proof {
                assert(bytes@ =~= narrowed(self.dialogue@.take(i + 1)));
            }
            i += 1;
        }
        proof {
            assert(self.dialogue@.take(i as int) =~= self.dialogue@);
        }
        bytes
    }
}

/// What is stored for a state is read back as that state.
pub proof fn law_dialogue_round_trip(bytes: Seq<u8>)
    ensures
        narrowed(widened(bytes)) == bytes,
{
    assert(narrowed(widened(bytes)) =~= bytes);
}

} // verus!
