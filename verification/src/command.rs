//! The outbound side of the protocol: the two commands that the client
//! sends, as XML text. Each is the XML declaration and the envelope, one
//! directly behind the other with no line break between them.

use vstd::prelude::*;
use vstd::string::StringExecFns;
use crate::number::{append_decimal, decimal_digits};

verus! {

/// The text of the handshake that opens a connection.
pub open spec fn init_profile_text() -> Seq<char> {
    "<?xml version=\"1.0\" encoding=\"UTF-8\" ?><CS_RMC version=1><command>init profile</command></CS_RMC>"@
}

/// The text of the request to measure a color: the three channel values in
/// decimal notation, each in an element of its own.
pub open spec fn measurement_text(red: u8, green: u8, blue: u8) -> Seq<char> {
    "<?xml version=\"1.0\" encoding=\"UTF-8\" ?><CS_RMC version=1><measurement><red>"@
        + decimal_digits(red as nat) + "</red><green>"@ + decimal_digits(green as nat)
        + "</green><blue>"@ + decimal_digits(blue as nat) + "</blue></measurement></CS_RMC>"@
}

/// The handshake, sent once on each connection before any request.
pub fn init_profile_command() -> (command: String)
    ensures
        command@ == init_profile_text(),
{
    String::from_str(
        "<?xml version=\"1.0\" encoding=\"UTF-8\" ?><CS_RMC version=1><command>init profile</command></CS_RMC>",
    )
}

/// The request to measure the color of these channel values.
pub fn measurement_command(red: u8, green: u8, blue: u8) -> (command: String)
    ensures
        command@ == measurement_text(red, green, blue),
{
    let mut command = String::from_str(
        "<?xml version=\"1.0\" encoding=\"UTF-8\" ?><CS_RMC version=1><measurement><red>",
    );
    append_decimal(&mut command, red as u16);
    command.append("</red><green>");
    append_decimal(&mut command, green as u16);
    command.append("</green><blue>");
    append_decimal(&mut command, blue as u16);
    command.append("</blue></measurement></CS_RMC>");
    command
}

} // verus!
