//! A stand-in for `libxdo` with the same public API that never links to the
//! system library: every constructor and operation reports that it is not
//! available.

use vstd::prelude::*;

verus! {

/// Handle to the (unavailable) X input simulation library.
pub struct XDo {
    _private: (),
}

/// Why an `XDo` handle could not be created.
#[derive(Debug, PartialEq, Eq, Structural)]
pub enum CreationError {
    Unavailable,
}

/// Why an `XDo` operation did not take place.
#[derive(Debug, PartialEq, Eq, Structural)]
pub enum OpError {
    Failed,
}

impl CreationError {
    /// The human-readable description of the error.
    pub fn message(&self) -> (s: String)
        ensures
            s@ == "libxdo stub: not available"@,
    {
        let s = String::from_str("libxdo stub: not available");
        proof {
            reveal_strlit("libxdo stub: not available");
        }
        s
    }
}

impl OpError {
    /// The human-readable description of the error.
    pub fn message(&self) -> (s: String)
        ensures
            s@ == "libxdo stub: operation not supported"@,
    {
        String::from_str("libxdo stub: operation not supported")
    }
}

impl XDo {
    /// Creating a handle always fails: the library is not linked.
    pub fn new(_display: Option<&str>) -> (r: Result<XDo, CreationError>)
        ensures
            r == Err::<XDo, CreationError>(CreationError::Unavailable),
    {
        Err(CreationError::Unavailable)
    }

    /// Moving the pointer is not supported.
    pub fn move_mouse(&self, _x: i32, _y: i32, _screen: i32) -> (r: Result<(), OpError>)
        ensures
            r == Err::<(), OpError>(OpError::Failed),
    {
        Err(OpError::Failed)
    }

    /// Relative pointer motion is not supported.
    pub fn move_mouse_relative(&self, _x: i32, _y: i32) -> (r: Result<(), OpError>)
        ensures
            r == Err::<(), OpError>(OpError::Failed),
    {
        Err(OpError::Failed)
    }

    /// Clicking is not supported.
    pub fn click(&self, _button: i32) -> (r: Result<(), OpError>)
        ensures
            r == Err::<(), OpError>(OpError::Failed),
    {
        Err(OpError::Failed)
    }

    /// Pressing a button is not supported.
    pub fn mouse_down(&self, _button: i32) -> (r: Result<(), OpError>)
        ensures
            r == Err::<(), OpError>(OpError::Failed),
    {
        Err(OpError::Failed)
    }

    /// Releasing a button is not supported.
    pub fn mouse_up(&self, _button: i32) -> (r: Result<(), OpError>)
        ensures
            r == Err::<(), OpError>(OpError::Failed),
    {
        Err(OpError::Failed)
    }

    /// Typing text is not supported.
    pub fn enter_text(&self, _text: &str, _delay_microsecs: u32) -> (r: Result<(), OpError>)
        ensures
            r == Err::<(), OpError>(OpError::Failed),
    {
        Err(OpError::Failed)
    }

    /// Sending a key sequence is not supported.
    pub fn send_keysequence(&self, _sequence: &str, _delay_microsecs: u32) -> (r: Result<(), OpError>)
        ensures
            r == Err::<(), OpError>(OpError::Failed),
    {
        Err(OpError::Failed)
    }

    /// Releasing a key sequence is not supported.
    pub fn send_keysequence_up(&self, _sequence: &str, _delay_microsecs: u32) -> (r: Result<(), OpError>)
        ensures
            r == Err::<(), OpError>(OpError::Failed),
    {
        Err(OpError::Failed)
    }

    /// Pressing a key sequence is not supported.
    pub fn send_keysequence_down(&self, _sequence: &str, _delay_microsecs: u32) -> (r: Result<(), OpError>)
        ensures
            r == Err::<(), OpError>(OpError::Failed),
    {
        Err(OpError::Failed)
    }
}

} // verus!
