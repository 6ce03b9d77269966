//! The `{"op":...,"args":[...]}` wire-command dialect shared by several
//! exchanges.

use vstd::prelude::*;
use vstd::string::*;
use crate::batch::CommandEncoder;
use crate::json::{json_string_array, to_json_string_array};

verus! {

/// The command text for one batch of channels in the `op`/`args` dialect.
pub open spec fn op_args_command_view(chans: Seq<Seq<char>>, subscribe: bool) -> Seq<char> {
    "{\"op\":\""@ + (if subscribe {
        "subscribe"@
    } else {
        "unsubscribe"@
    }) + "\",\"args\":"@ + json_string_array(chans) + "}"@
}

/// Renders one subscribe or unsubscribe command covering `chunk`.
pub fn op_args_command(chunk: &Vec<String>, subscribe: bool) -> (r: String)
    ensures
        r@ == op_args_command_view(chunk.deep_view(), subscribe),
{
    let mut s = String::from_str("{\"op\":\"");
    s.append(if subscribe {
        "subscribe"
    } else {
        "unsubscribe"
    });
    s.append("\",\"args\":");
    let arr = to_json_string_array(chunk);
    s.append(arr.as_str());
    s.append("}");
    s
}

/// The `op`/`args` dialect as a batch encoder for the frame batcher.
pub struct OpArgsEncoder;

impl CommandEncoder for OpArgsEncoder {
    open spec fn spec_command(chans: Seq<Seq<char>>, subscribe: bool) -> Seq<char> {
        op_args_command_view(chans, subscribe)
    }

    fn command(chunk: &Vec<String>, subscribe: bool) -> (r: String) {
        op_args_command(chunk, subscribe)
    }
}

} // verus!
