//! The fan actuator: three PWM channels that share one controller.
//!
//! The actuator decides what a request to set a channel amounts to; the
//! caller holds the channels' resources and carries the decision out. In
//! debug mode no hardware is touched: every request is reported and succeeds.
//! In live mode a request is a write to the channel's resource, and it fails
//! if that resource could not be opened. Each channel stands for itself: what
//! happens to one has no bearing on the others.

use crate::decimal::{append_decimal, decimal_text, format_decimal};
use vstd::prelude::*;

verus! {

/// Number of fan channels.
pub const CHANNELS: usize = 3;

/// What the caller has to do to carry out a request.
#[derive(Clone, Copy, Debug, PartialEq, Eq)]
pub enum PwmCommand {
    /// Report that `value` was meant for channel `channel`; write nothing.
    Report { channel: usize, value: u8 },
    /// Write the decimal text of `value` to the resource in slot `slot` of
    /// the channels' resources, counted from zero, and flush it.
    Write { slot: usize, value: u8 },
    /// Do nothing: the request named no channel.
    Nothing,
}

/// The failure of a request in live mode: the resource of channel `channel`
/// could not be opened.
#[derive(Clone, Copy, Debug, PartialEq, Eq)]
pub struct ChannelUnavailable {
    pub channel: usize,
}

/// What a request to set channel `pwm_number` to `value` amounts to, given
/// the mode and, for each channel, whether its resource was opened.
pub open spec fn command_for(debug_mode: bool, opened: Seq<bool>, pwm_number: usize, value: u8)
    -> Result<PwmCommand, ChannelUnavailable> {
    if debug_mode {
        Ok(PwmCommand::Report { channel: pwm_number, value })
    } else if 1 <= pwm_number <= opened.len() {
        if opened[pwm_number - 1] {
            Ok(PwmCommand::Write { slot: (pwm_number - 1) as usize, value })
        } else {
            Err(ChannelUnavailable { channel: pwm_number })
        }
    } else {
        Ok(PwmCommand::Nothing)
    }
}

/// The name of the resource of channel `pwm_number` below the controller's
/// directory.
pub open spec fn channel_name(pwm_number: usize) -> Seq<char> {
    "pwm"@ + decimal_text(pwm_number as nat)
}

/// The actuator's state: its mode, and for each of the three channels
/// whether its resource was opened. Both are fixed when the actuator is made.
#[derive(Clone, Copy, Debug)]
pub struct PwmController {
    debug_mode: bool,
    opened: [bool; 3],
}

impl PwmController {
    /// Whether the actuator reports requests in place of writing them.
    pub closed spec fn debug(&self) -> bool {
        self.debug_mode
    }

    /// For each channel, in order, whether its resource was opened.
    pub closed spec fn channels(&self) -> Seq<bool> {
        self.opened@
    }

    /// An actuator in the given mode. `opened` says for each channel, in
    /// order, whether the caller could open its resource.
    pub fn new(debug_mode: bool, opened: [bool; 3]) -> (controller: Self)
        ensures
            controller.debug() == debug_mode,
            controller.channels() == opened@,
    {
        PwmController { debug_mode, opened }
    }

    /// Whether the actuator reports requests in place of writing them.
    pub fn debug_mode(&self) -> (debug_mode: bool)
        ensures
            debug_mode == self.debug(),
    {
        self.debug_mode
    }

    /// Decides a request to set channel `pwm_number`, counted from one, to
    /// `value`.
    ///
    /// In debug mode the request is reported, whatever the channel. In live
    /// mode it is a write if the channel's resource was opened and fails if
    /// it was not; a number that names no channel is passed over.
    pub fn set_pwm(&self, pwm_number: usize, value: u8) -> (command: Result<
        PwmCommand,
        ChannelUnavailable,
    >)
        ensures
            command == command_for(self.debug(), self.channels(), pwm_number, value),
            self.debug() ==> command is Ok,
    {
        if self.debug_mode {
            Ok(PwmCommand::Report { channel: pwm_number, value })
        } else if 1 <= pwm_number && pwm_number <= CHANNELS {
            if self.opened[pwm_number - 1] {
                Ok(PwmCommand::Write { slot: pwm_number - 1, value })
            } else {
                Err(ChannelUnavailable { channel: pwm_number })
            }
        } else {
            Ok(PwmCommand::Nothing)
        }
    }

    /// Decides the requests that set every channel to `value`: one answer
    /// for each channel, in order, none of which depends on another.
    pub fn set_all(&self, value: u8) -> (commands: Vec<Result<PwmCommand, ChannelUnavailable>>)
        ensures
            commands@.len() == 3,
            forall|i: int|
                0 <= i < 3 ==> #[trigger] commands@[i] == command_for(
                    self.debug(),
                    self.channels(),
                    (i + 1) as usize,
                    value,
                ),
    {
        let mut commands: Vec<Result<PwmCommand, ChannelUnavailable>> = Vec::new();
        let mut pwm_number: usize = 1;
        while pwm_number <= CHANNELS
            invariant
                1 <= pwm_number <= 4,
                commands@.len() == pwm_number - 1,
                forall|i: int|
                    0 <= i < pwm_number - 1 ==> #[trigger] commands@[i] == command_for(
                        self.debug(),
                        self.channels(),
                        (i + 1) as usize,
                        value,
                    ),
            decreases 4 - pwm_number,
        {
            commands.push(self.set_pwm(pwm_number, value));
            pwm_number += 1;
        }
        commands
    }
}

/// The text that a write puts into a channel's resource: the duty cycle in
/// its shortest decimal form.
pub fn duty_text(value: u8) -> (text: String)
    ensures
        text@ == decimal_text(value as nat),
{
    format_decimal(value as u64)
}

/// The name of the resource of channel `pwm_number` below the controller's
/// directory: `pwm` and the number.
pub fn channel_file_name(pwm_number: usize) -> (name: String)
    ensures
        name@ == channel_name(pwm_number),
{
    let mut name = "pwm".to_owned();
    append_decimal(&mut name, pwm_number as u64);
    name
}

/// Channels do not depend on one another: what a request for one channel
/// amounts to is the same whatever became of the other channels' resources.
pub proof fn lemma_channels_independent(
    debug_mode: bool,
    opened: Seq<bool>,
    other: Seq<bool>,
    pwm_number: usize,
    value: u8,
)
    requires
        opened.len() == other.len(),
        1 <= pwm_number <= opened.len() ==> opened[pwm_number - 1] == other[pwm_number - 1],
    ensures
        command_for(debug_mode, opened, pwm_number, value) == command_for(
            debug_mode,
            other,
            pwm_number,
            value,
        ),
{
}

} // verus!
