use vstd::prelude::*;

verus! {

/// The short error tag shown to the frontend.
#[derive(Clone, Copy, Debug, PartialEq, Eq, Structural)]
pub enum ErrorMsg {
    Unknown,
    TokenLoad,
    TokenSave,
    TwitchAuth,
    GetColorScheme,
    UsernameGone,
    TokenGone,
    ChatMsgSend,
    AlreadyLoggedIn,
    FeatureDisabled,
    WebSocketSetup,
    RedeemRequest,
}

impl Default for ErrorMsg {
    fn default() -> (r: Self)
        ensures
            r == ErrorMsg::Unknown,
    {
        ErrorMsg::Unknown
    }
}

/// An error: its frontend tag and, where one exists, a description of the
/// underlying failure.
#[derive(Debug)]
pub struct Error {
    pub src: Option<String>,
    pub msg: ErrorMsg,
}

impl Error {
    /// An error that is only its tag.
    pub fn new(msg: ErrorMsg) -> (r: Self)
        ensures
            r.msg == msg,
            r.src is None,
    {
        Error { msg, src: None }
    }

    /// An error wrapping an underlying failure's description.
    pub fn from_err(src: String, msg: ErrorMsg) -> (r: Self)
        ensures
            r.msg == msg,
            r.src == Some(src),
    {
        Error { src: Some(src), msg }
    }

    /// Only sets the message if the error's own tag is still unknown; a tag
    /// already decided is kept.
    pub fn try_set_msg(self, msg: ErrorMsg) -> (r: Self)
        ensures
            r.msg == if self.msg == ErrorMsg::Unknown {
                msg
            } else {
                self.msg
            },
            r.src == self.src,
    {
        let mut e = self;
        if e.msg == ErrorMsg::Unknown {
            e.msg = msg;
        }
        e
    }

    /// Overwrites the message, no matter what.
    pub fn overwrite_msg(self, msg: ErrorMsg) -> (r: Self)
        ensures
            r.msg == msg,
            r.src == self.src,
    {
        let mut e = self;
        e.msg = msg;
        e
    }
}

} // verus!
