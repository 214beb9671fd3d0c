//! The shell commands the backends send to a device, and how their answers
//! are read.
use crate::args::string_views;
use crate::text::{decimal, decimal_chars, from_chars, trim, trim_chars};
use vstd::prelude::*;

verus! {

/// How long a swipe takes, in milliseconds, when the caller names no time.
pub const DEFAULT_SWIPE_MS: u32 = 300;

fn number_arg(n: u32) -> (r: String)
    ensures
        r@ == decimal(n as nat),
{
    from_chars(&decimal_chars(n as u128))
}

/// `input tap X Y`.
pub fn tap_command(x: u32, y: u32) -> (r: Vec<String>)
    ensures
        string_views(r@) == seq!["input"@, "tap"@, decimal(x as nat), decimal(y as nat)],
{
    let mut v: Vec<String> = Vec::new();
    v.push("input".to_owned());
    v.push("tap".to_owned());
    v.push(number_arg(x));
    v.push(number_arg(y));
    assert(string_views(v@) =~= seq!["input"@, "tap"@, decimal(x as nat), decimal(y as nat)]);
    v
}

/// `input swipe X1 Y1 X2 Y2 MS`, the time being 300 ms unless given.
pub fn swipe_command(x1: u32, y1: u32, x2: u32, y2: u32, duration: Option<u32>) -> (r: Vec<
    String,
>)
    ensures
        string_views(r@) == seq![
            "input"@,
            "swipe"@,
            decimal(x1 as nat),
            decimal(y1 as nat),
            decimal(x2 as nat),
            decimal(y2 as nat),
            decimal(
                match duration {
                    Some(d) => d,
                    None => DEFAULT_SWIPE_MS,
                } as nat,
            ),
        ],
{
    let ms = match duration {
        Some(d) => d,
        None => DEFAULT_SWIPE_MS,
    };
    let mut v: Vec<String> = Vec::new();
    v.push("input".to_owned());
    v.push("swipe".to_owned());
    v.push(number_arg(x1));
    v.push(number_arg(y1));
    v.push(number_arg(x2));
    v.push(number_arg(y2));
    v.push(number_arg(ms));
    assert(string_views(v@) =~= seq![
        "input"@,
        "swipe"@,
        decimal(x1 as nat),
        decimal(y1 as nat),
        decimal(x2 as nat),
        decimal(y2 as nat),
        decimal(ms as nat),
    ]);
    v
}

/// `timeout 0.3 getevent -c 1 DEVICE`: waits briefly for one input event.
pub fn touch_poll_command(event_device: &str) -> (r: Vec<String>)
    ensures
        string_views(r@) == seq!["timeout"@, "0.3"@, "getevent"@, "-c"@, "1"@, event_device@],
{
    let mut v: Vec<String> = Vec::new();
    v.push("timeout".to_owned());
    v.push("0.3".to_owned());
    v.push("getevent".to_owned());
    v.push("-c".to_owned());
    v.push("1".to_owned());
    v.push(event_device.to_owned());
    assert(string_views(v@) =~= seq!["timeout"@, "0.3"@, "getevent"@, "-c"@, "1"@, event_device@]);
    v
}

/// A touch poll saw a touch when it printed anything but whitespace.
pub fn touch_detected(output: &str) -> (r: bool)
    ensures
        r == (trim(output@).len() > 0),
{
    let c = crate::text::to_chars(output);
    let t = trim_chars(&c);
    t.len() > 0
}

} // verus!
