//! The device verification page: the emoji to compare, and the answers to the
//! other device.
use vstd::prelude::*;

use crate::screens::{Command, Elementary, HomePage, LoginPage, Messages, VerifyPage};
use crate::subscriber::{MatrixEvents, ToDeviceEvent};

verus! {

/// Emoji laid out in rows of `stride`.
pub struct EmojiHandler<T> {
    pub stride: usize,
    pub data: Vec<T>,
}

impl<T> EmojiHandler<T> {
    /// The item in row `row` and column `col`, if there is one.
    pub fn get(&self, row: usize, col: usize) -> (r: Option<&T>)
        requires
            row * self.stride + col <= usize::MAX,
        ensures
            r matches Some(x) ==> row * self.stride + col < self.data@.len() && *x
                == self.data@[row * self.stride + col],
            r is None <==> row * self.stride + col >= self.data@.len(),
    {
        proof {
            assert(0 <= row * self.stride) by (nonlinear_arith);
        }
        let index = row * self.stride + col;
        if index >= self.data.len() {
            None
        } else {
            Some(&self.data[index])
        }
    }
}

/// Emoji shown per row.
pub const EMOJI_GRID_STRIDE: usize = 4;

/// The number of rows that `n` emoji fill.
pub open spec fn grid_rows(n: int) -> int {
    if n % 4 == 0 {
        n / 4
    } else {
        n / 4 + 1
    }
}

/// The emoji in rows of four, in their order; the last row may be shorter.
pub fn emoji_grid(emoji: &Vec<(String, String)>) -> (r: Vec<Vec<(String, String)>>)
    ensures
        r@.len() == grid_rows(emoji@.len() as int),
        forall|i: int|
            0 <= i < r@.len() ==> (#[trigger] r@[i])@ == emoji@.subrange(
                4 * i,
                if 4 * i + 4 <= emoji@.len() {
                    4 * i + 4
                } else {
                    emoji@.len() as int
                },
            ),
{
    let n = emoji.len();
    let num_rows = if n % EMOJI_GRID_STRIDE == 0 {
        n / EMOJI_GRID_STRIDE
    } else {
        n / EMOJI_GRID_STRIDE + 1
    };
    let mut data: Vec<(String, String)> = Vec::new();
    let mut k: usize = 0;
    while k < n
        invariant
            0 <= k <= n,
            n == emoji@.len(),
            data@ == emoji@.take(k as int),
        decreases n - k,
    {
        let pair = (emoji[k].0.clone(), emoji[k].1.clone());
        data.push(pair);
        assert(emoji@.take(k + 1) =~= emoji@.take(k as int).push(emoji@[k as int]));
        k += 1;
    }
    assert(data@ =~= emoji@);
    let handler = EmojiHandler { stride: EMOJI_GRID_STRIDE, data };
    let mut rows: Vec<Vec<(String, String)>> = Vec::new();
    let mut row: usize = 0;
    while row < num_rows
        invariant
            0 <= row <= num_rows,
            num_rows == grid_rows(n as int),
            n == emoji@.len(),
            handler.stride == 4,
            handler.data@ == emoji@,
            rows@.len() == row,
            forall|i: int|
                0 <= i < row ==> (#[trigger] rows@[i])@ == emoji@.subrange(
                    4 * i,
                    if 4 * i + 4 <= n {
                        4 * i + 4
                    } else {
                        n as int
                    },
                ),
        decreases num_rows - row,
    {
        let mut cells: Vec<(String, String)> = Vec::new();
        let mut col: usize = 0;
        let ghost lo = 4 * row as int;
        let ghost hi = if lo + 4 <= n {
            lo + 4
        } else {
            n as int
        };
        assert(lo < n);
        while col < EMOJI_GRID_STRIDE
            invariant
                0 <= col <= 4,
                row < num_rows,
                num_rows == grid_rows(n as int),
                lo == 4 * row,
                lo < n,
                hi == if lo + 4 <= n {
                    lo + 4
                } else {
                    n as int
                },
                n == emoji@.len(),
                handler.stride == 4,
                handler.data@ == emoji@,
                cells@ == emoji@.subrange(lo, if lo + col <= hi { lo + col } else { hi }),
            decreases 4 - col,
        {
            match handler.get(row, col) {
                Some(pair) => {
                    cells.push((pair.0.clone(), pair.1.clone()));
                    assert(cells@ =~= emoji@.subrange(lo, lo + col + 1));
                },
                None => {},
            }
            col += 1;
        }
        rows.push(cells);
        proof {
            assert forall|i: int|
                0 <= i < row + 1 implies (#[trigger] rows@[i])@ == emoji@.subrange(
                    4 * i,
                    if 4 * i + 4 <= n {
                        4 * i + 4
                    } else {
                        n as int
                    },
                ) by {}
        }
        row += 1;
    }
    rows
}

impl VerifyPage {
    /// How `message` changes the page, the commands it gives, and the page to
    /// move to, if any.
    pub open spec fn step(
        self,
        new: VerifyPage,
        message: Messages,
        cmds: Seq<Command>,
        next: Option<Elementary>,
    ) -> bool {
        match message {
            Messages::Sync(
                MatrixEvents::ToDevice(ToDeviceEvent::KeyVerificationStart { transaction_id }),
            ) => {
                &&& new == self
                &&& cmds == seq![Command::AcceptVerification(transaction_id)]
                &&& next is None
            },
            Messages::Sync(
                MatrixEvents::ToDevice(ToDeviceEvent::KeyVerificationKey { transaction_id }),
            ) => {
                &&& new == self
                &&& cmds == seq![Command::ShowVerificationEmoji(transaction_id)]
                &&& next is None
            },
            Messages::SetVerification(emoji) => {
                &&& new == VerifyPage { verification_emoji: emoji, sas: true, ..self }
                &&& cmds.len() == 0
                &&& next is None
            },
            Messages::VerificationConfirm => {
                &&& new == self
                &&& cmds == if self.sas {
                    seq![Command::ConfirmVerification]
                } else {
                    Seq::empty()
                }
                &&& next is None
            },
            Messages::VerificationCancel => {
                &&& new == self
                &&& cmds == if self.sas {
                    seq![Command::CancelVerification]
                } else {
                    Seq::empty()
                }
                &&& next is None
            },
            Messages::GoHome => {
                &&& new == self
                &&& cmds.len() == 0
                &&& next matches Some(Elementary::HomePage(h)) && h.is_fresh(self.session)
            },
            Messages::GoBack => {
                &&& new == self
                &&& cmds.len() == 0
                &&& next matches Some(Elementary::LoginPage(l)) && l.is_fresh()
            },
            _ => {
                &&& new == self
                &&& cmds.len() == 0
                &&& next is None
            },
        }
    }

    pub fn update(&mut self, message: Messages) -> (r: (Vec<Command>, Option<Elementary>))
        ensures
            old(self).step(*final(self), message, r.0@, r.1),
    {
        let mut cmds: Vec<Command> = Vec::new();
        match message {
            Messages::Sync(MatrixEvents::ToDevice(event)) => {
                match event {
                    ToDeviceEvent::KeyVerificationStart { transaction_id } => {
                        cmds.push(Command::AcceptVerification(transaction_id));
                        assert(cmds@ =~= seq![Command::AcceptVerification(transaction_id)]);
                    },
                    ToDeviceEvent::KeyVerificationKey { transaction_id } => {
                        cmds.push(Command::ShowVerificationEmoji(transaction_id));
                        assert(cmds@ =~= seq![Command::ShowVerificationEmoji(transaction_id)]);
                    },
                    ToDeviceEvent::Other => {},
                }
            },
            Messages::SetVerification(emoji) => {
                self.verification_emoji = emoji;
                self.sas = true;
            },
            Messages::VerificationConfirm => {
                if self.sas {
                    cmds.push(Command::ConfirmVerification);
                    assert(cmds@ =~= seq![Command::ConfirmVerification]);
                }
            },
            Messages::VerificationCancel => {
                if self.sas {
                    cmds.push(Command::CancelVerification);
                    assert(cmds@ =~= seq![Command::CancelVerification]);
                }
            },
            Messages::GoHome => {
                return (cmds, Some(Elementary::HomePage(HomePage::new(self.session.duplicate()))));
            },
            Messages::GoBack => {
                return (cmds, Some(Elementary::LoginPage(LoginPage::default())));
            },
            _ => {},
        }
        (cmds, None)
    }
}

} // verus!
