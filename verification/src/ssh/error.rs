use vstd::prelude::*;
use vstd::string::*;

verus! {

/// The kinds of failure of the engine. Every failure is of exactly one kind
/// and carries a cause that a person can read.
#[derive(Debug, PartialEq, Eq)]
pub enum SshError {
    /// The host could not be reached, or the transport broke.
    Transport(String),
    /// The remote host rejected the credentials.
    Auth(String),
    /// The local key material is missing, unreadable or malformed.
    KeyLoad(String),
    /// Opening the channel, or the terminal or shell request on it, failed.
    Channel(String),
    /// A file-transfer operation failed.
    Io(String),
    /// The channel ended, by request or from the remote side. Not a failure.
    ChannelClosed,
}

/// An [`SshError`] as a mathematical value.
pub enum SshErrorView {
    Transport(Seq<char>),
    Auth(Seq<char>),
    KeyLoad(Seq<char>),
    Channel(Seq<char>),
    Io(Seq<char>),
    ChannelClosed,
}

impl View for SshError {
    type V = SshErrorView;

    open spec fn view(&self) -> SshErrorView {
        match self {
            SshError::Transport(m) => SshErrorView::Transport(m@),
            SshError::Auth(m) => SshErrorView::Auth(m@),
            SshError::KeyLoad(m) => SshErrorView::KeyLoad(m@),
            SshError::Channel(m) => SshErrorView::Channel(m@),
            SshError::Io(m) => SshErrorView::Io(m@),
            SshError::ChannelClosed => SshErrorView::ChannelClosed,
        }
    }
}

impl SshErrorView {
    /// The cause alone, as the event and the state of a connection carry it.
    pub open spec fn cause(self) -> Seq<char> {
        match self {
            SshErrorView::Transport(m) => m,
            SshErrorView::Auth(m) => m,
            SshErrorView::KeyLoad(m) => m,
            SshErrorView::Channel(m) => m,
            SshErrorView::Io(m) => m,
            SshErrorView::ChannelClosed => "Channel closed"@,
        }
    }

    /// The failure in words, as it is shown to a person.
    pub open spec fn message(self) -> Seq<char> {
        match self {
            SshErrorView::Transport(m) => m,
            SshErrorView::Auth(m) => m,
            SshErrorView::KeyLoad(m) => "Failed to load key: "@ + m,
            SshErrorView::Channel(m) => m,
            SshErrorView::Io(m) => m,
            SshErrorView::ChannelClosed => "Channel closed"@,
        }
    }

    /// Whether this kind reports a failure. The end of a channel does not.
    pub open spec fn is_failure(self) -> bool {
        !(self is ChannelClosed)
    }
}

impl Clone for SshError {
    fn clone(&self) -> (r: SshError)
        ensures
            r@ == self@,
    {
        match self {
            SshError::Transport(m) => SshError::Transport(m.clone()),
            SshError::Auth(m) => SshError::Auth(m.clone()),
            SshError::KeyLoad(m) => SshError::KeyLoad(m.clone()),
            SshError::Channel(m) => SshError::Channel(m.clone()),
            SshError::Io(m) => SshError::Io(m.clone()),
            SshError::ChannelClosed => SshError::ChannelClosed,
        }
    }
}

impl SshError {
    /// The cause alone, as the event and the state of a connection carry it.
    pub fn cause(&self) -> (m: String)
        ensures
            m@ == self@.cause(),
    {
        match self {
            SshError::Transport(m) => m.clone(),
            SshError::Auth(m) => m.clone(),
            SshError::KeyLoad(m) => m.clone(),
            SshError::Channel(m) => m.clone(),
            SshError::Io(m) => m.clone(),
            SshError::ChannelClosed => "Channel closed".to_owned(),
        }
    }

    /// The failure in words, as it is shown to a person.
    pub fn message(&self) -> (m: String)
        ensures
            m@ == self@.message(),
    {
        match self {
            SshError::Transport(m) => m.clone(),
            SshError::Auth(m) => m.clone(),
            SshError::KeyLoad(m) => {
                let mut text = "Failed to load key: ".to_owned();
                text.append(m.as_str());
                text
            },
            SshError::Channel(m) => m.clone(),
            SshError::Io(m) => m.clone(),
            SshError::ChannelClosed => "Channel closed".to_owned(),
        }
    }

    /// Whether this kind reports a failure. The end of a channel does not.
    pub fn is_failure(&self) -> (b: bool)
        ensures
            b == self@.is_failure(),
    {
        match self {
            SshError::ChannelClosed => false,
            _ => true,
        }
    }
}

} // verus!
