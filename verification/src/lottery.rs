use crate::framing::{be32_value, from_be32};
use vstd::prelude::*;

verus! {

/// A command that the bridge hands to the lottery.
#[derive(Clone, Debug, PartialEq, Eq)]
pub enum LotteryCommand {
    /// A new round begins.
    NewRound { round_id: u32, total_count: u32, winner_count: u32 },
    /// A box is opened for a Bitcoin address.
    OpenBox { round_id: u32, token_id: u32, btc_address: Vec<u8> },
}

/// What a [`LotteryCommand`] holds, as mathematical values.
pub ghost enum LotteryCommandView {
    NewRound { round_id: u32, total_count: u32, winner_count: u32 },
    OpenBox { round_id: u32, token_id: u32, btc_address: Seq<u8> },
}

impl View for LotteryCommand {
    type V = LotteryCommandView;

    open spec fn view(&self) -> LotteryCommandView {
        match *self {
            LotteryCommand::NewRound { round_id, total_count, winner_count } => {
                LotteryCommandView::NewRound { round_id, total_count, winner_count }
            },
            LotteryCommand::OpenBox { round_id, token_id, btc_address } => {
                LotteryCommandView::OpenBox { round_id, token_id, btc_address: btc_address@ }
            },
        }
    }
}

/// The number that the four bytes of `metadata` from `at` on spell, most
/// significant first.
pub open spec fn number_at(metadata: Seq<u8>, at: int) -> u32 {
    be32_value(metadata.subrange(at, at + 4)) as u32
}

/// The command that `metadata` spells. The first byte says which: 0 for a
/// new round, which is 13 bytes, the round, the total count and the count
/// of winners in four bytes each; 1 for a box, which is the round and the
/// token in four bytes each, the length of the address in four bytes, and
/// an address of that length and of one byte at least. Anything else
/// spells no command.
pub open spec fn lottery_command_of(metadata: Seq<u8>) -> Option<LotteryCommandView> {
    if metadata.len() == 0 {
        None
    } else if metadata[0] == 0 {
        if metadata.len() == 13 {
            Some(
                LotteryCommandView::NewRound {
                    round_id: number_at(metadata, 1),
                    total_count: number_at(metadata, 5),
                    winner_count: number_at(metadata, 9),
                },
            )
        } else {
            None
        }
    } else if metadata[0] == 1 {
        if metadata.len() > 13 && metadata.len() == 13 + number_at(metadata, 9) {
            Some(
                LotteryCommandView::OpenBox {
                    round_id: number_at(metadata, 1),
                    token_id: number_at(metadata, 5),
                    btc_address: metadata.subrange(13, metadata.len() as int),
                },
            )
        } else {
            None
        }
    } else {
        None
    }
}

/// Reads the command that the bridge sent as `metadata`.
pub fn lottery_command(metadata: &[u8]) -> (r: Option<LotteryCommand>)
    ensures
        match r {
            Some(command) => lottery_command_of(metadata@) == Some(command@),
            None => lottery_command_of(metadata@) is None,
        },
{
    if metadata.len() == 0 {
        return None;
    }
    let op: u8 = metadata[0];
    if op == 0 {
        if metadata.len() != 13 {
            return None;
        }
        Some(
            LotteryCommand::NewRound {
                round_id: from_be32(metadata, 1),
                total_count: from_be32(metadata, 5),
                winner_count: from_be32(metadata, 9),
            },
        )
    } else if op == 1 {
        if metadata.len() <= 13 {
            return None;
        }
        let address_len: u32 = from_be32(metadata, 9);
        if metadata.len() - 13 != address_len as usize {
            return None;
        }
        let address = vstd::slice::slice_subrange(metadata, 13, metadata.len());
        Some(
            LotteryCommand::OpenBox {
                round_id: from_be32(metadata, 1),
                token_id: from_be32(metadata, 5),
                btc_address: vstd::slice::slice_to_vec(address),
            },
        )
    } else {
        None
    }
}

} // verus!
