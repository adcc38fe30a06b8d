//! The transport's state: one TCP connection to one ECU.
//!
//! The socket itself is the caller's. For each operation the caller does
//! the I/O and reports what came of it; the client decides what that means
//! for the connection and what the operation returns.

use vstd::prelude::*;
use crate::text::{decimal_digits, push_char, push_decimal};
use crate::types::{labelled, DoipClientConfig, DoipError};

verus! {

/// Timeout of one I/O call where the configuration names none, in
/// milliseconds.
pub const DEFAULT_TIMEOUT_MS: u64 = 30000;

/// The most bytes that one read takes from the socket.
pub const RECEIVE_BUFFER_SIZE: usize = 4096;

/// What came of an attempt to open the connection.
#[derive(Debug, Clone, PartialEq, Eq)]
pub enum ConnectOutcome {
    /// The socket is open.
    Connected,
    /// The endpoint's text is no socket address; the text says why.
    InvalidAddress(String),
    /// The peer refused or could not be reached; the text says why.
    Failed(String),
    /// The timeout passed first.
    TimedOut,
}

/// What came of an attempt to write a whole buffer.
#[derive(Debug, Clone, PartialEq, Eq)]
pub enum SendOutcome {
    /// There was no socket to write to.
    NoSocket,
    /// Every byte was written.
    Written,
    /// The write failed; the text says why.
    Failed(String),
}

/// What came of one read.
#[derive(Debug, Clone, PartialEq, Eq)]
pub enum ReadOutcome {
    /// There was no socket to read from.
    NoSocket,
    /// The read returned these bytes. None at all means that the peer has
    /// closed the connection.
    Read(Vec<u8>),
    /// The read failed; the text says why.
    Failed(String),
    /// The timeout passed first.
    TimedOut,
}

/// The state of the connection to one ECU.
pub struct DoipClient {
    config: DoipClientConfig,
    is_connected: bool,
}

impl DoipClient {
    /// The configuration the client was made with, with the timeout as last
    /// set.
    pub closed spec fn config(&self) -> DoipClientConfig {
        self.config
    }

    /// The connection is up.
    pub closed spec fn connected(&self) -> bool {
        self.is_connected
    }

    /// The text of the endpoint: the host, a colon and the port in decimal.
    pub open spec fn endpoint_text(&self) -> Seq<char> {
        self.config().ip_address@ + seq![':'] + decimal_digits(self.config().port as nat)
    }

    /// The timeout of one I/O call, in milliseconds.
    pub open spec fn timeout_ms_spec(&self) -> u64 {
        match self.config().timeout {
            Some(ms) => ms,
            None => DEFAULT_TIMEOUT_MS,
        }
    }

    /// A client for `config`, not yet connected.
    pub fn new(config: DoipClientConfig) -> (client: Self)
        ensures
            client.config() == config,
            !client.connected(),
    {
        Self { config, is_connected: false }
    }

    /// The endpoint as text, for the caller to resolve and connect to.
    pub fn endpoint(&self) -> (text: String)
        ensures
            text@ == self.endpoint_text(),
    {
        let mut text = self.config.ip_address.clone();
        push_char(&mut text, ':');
        push_decimal(&mut text, self.config.port as u64);
        assert(text@ =~= self.endpoint_text());
        text
    }

    /// The timeout that every I/O call on the socket is to run under.
    #[verifier::when_used_as_spec(timeout_ms_spec)]
    pub fn timeout_ms(&self) -> (ms: u64)
        ensures
            ms == self.timeout_ms_spec(),
    {
        match self.config.timeout {
            Some(ms) => ms,
            None => DEFAULT_TIMEOUT_MS,
        }
    }

    /// Takes in what came of opening the connection. The connection is up
    /// exactly if the socket was opened; each failure has its own error.
    pub fn connect(&mut self, outcome: ConnectOutcome) -> (result: Result<bool, DoipError>)
        ensures
            final(self).config() == old(self).config(),
            final(self).connected() == (old(self).connected() || outcome is Connected),
            match outcome {
                ConnectOutcome::Connected => result == Ok::<bool, DoipError>(true),
                ConnectOutcome::InvalidAddress(reason) => {
                    &&& result matches Err(DoipError::ConnectionFailed(text))
                    &&& text@ == "Invalid address: "@ + reason@
                },
                ConnectOutcome::Failed(reason) => result == Err::<bool, DoipError>(
                    DoipError::ConnectionFailed(reason),
                ),
                ConnectOutcome::TimedOut => result == Err::<bool, DoipError>(DoipError::Timeout),
            },
    {
        match outcome {
            ConnectOutcome::Connected => {
                self.is_connected = true;
                Ok(true)
            },
            ConnectOutcome::InvalidAddress(reason) => Err(
                DoipError::ConnectionFailed(labelled("Invalid address: ", &reason)),
            ),
            ConnectOutcome::Failed(reason) => Err(DoipError::ConnectionFailed(reason)),
            ConnectOutcome::TimedOut => Err(DoipError::Timeout),
        }
    }

    /// Takes in what came of writing a request. Without a connection the
    /// answer is `NotConnected`, whatever the outcome says.
    pub fn send(&mut self, outcome: SendOutcome) -> (result: Result<bool, DoipError>)
        ensures
            final(self).config() == old(self).config(),
            final(self).connected() == old(self).connected(),
            result == send_result(old(self).connected(), outcome),
    {
        if !self.is_connected {
            return Err(DoipError::NotConnected);
        }
        match outcome {
            SendOutcome::NoSocket => Err(DoipError::NotConnected),
            SendOutcome::Written => Ok(true),
            SendOutcome::Failed(reason) => Err(DoipError::SendFailed(reason)),
        }
    }

    /// Takes in what came of one read. Bytes are handed on as they came. A
    /// read of no bytes means that the peer has closed: the connection is
    /// then down. Without a connection the answer is `NotConnected`.
    pub fn receive(&mut self, outcome: ReadOutcome) -> (result: Result<Vec<u8>, DoipError>)
        ensures
            final(self).config() == old(self).config(),
            final(self).connected() == (old(self).connected() && !closes(outcome)),
            result == receive_result(old(self).connected(), outcome),
    {
        if !self.is_connected {
            return Err(DoipError::NotConnected);
        }
        match outcome {
            ReadOutcome::NoSocket => Err(DoipError::NotConnected),
            ReadOutcome::Read(bytes) => {
                if bytes.len() > 0 {
                    Ok(bytes)
                } else {
                    self.is_connected = false;
                    Err(DoipError::ConnectionClosedByPeer)
                }
            },
            ReadOutcome::Failed(reason) => Err(DoipError::ReceiveFailed(reason)),
            ReadOutcome::TimedOut => Err(DoipError::Timeout),
        }
    }

    /// Takes in what came of reading exactly `len` bytes. Anything but
    /// `len` bytes is a failure.
    pub fn receive_exact(&mut self, len: usize, outcome: ReadOutcome) -> (result: Result<
        Vec<u8>,
        DoipError,
    >)
        ensures
            final(self).config() == old(self).config(),
            final(self).connected() == old(self).connected(),
            !old(self).connected() || outcome is NoSocket ==> result == Err::<Vec<u8>, DoipError>(
                DoipError::NotConnected,
            ),
            old(self).connected() ==> match outcome {
                ReadOutcome::NoSocket => true,
                ReadOutcome::Read(bytes) => if bytes@.len() == len {
                    result == Ok::<Vec<u8>, DoipError>(bytes)
                } else {
                    result matches Err(DoipError::ReceiveFailed(reason)) && reason@
                        == "failed to fill whole buffer"@
                },
                ReadOutcome::Failed(reason) => result == Err::<Vec<u8>, DoipError>(
                    DoipError::ReceiveFailed(reason),
                ),
                ReadOutcome::TimedOut => result == Err::<Vec<u8>, DoipError>(DoipError::Timeout),
            },
    {
        if !self.is_connected {
            return Err(DoipError::NotConnected);
        }
        match outcome {
            ReadOutcome::NoSocket => Err(DoipError::NotConnected),
            ReadOutcome::Read(bytes) => {
                if bytes.len() == len {
                    Ok(bytes)
                } else {
                    Err(DoipError::ReceiveFailed("failed to fill whole buffer".to_string()))
                }
            },
            ReadOutcome::Failed(reason) => Err(DoipError::ReceiveFailed(reason)),
            ReadOutcome::TimedOut => Err(DoipError::Timeout),
        }
    }

    /// Marks the connection as down. The caller shuts the socket; a failure
    /// of that is not an error of this operation.
    pub fn disconnect(&mut self) -> (result: Result<bool, DoipError>)
        ensures
            final(self).config() == old(self).config(),
            !final(self).connected(),
            result == Ok::<bool, DoipError>(true),
    {
        self.is_connected = false;
        Ok(true)
    }

    /// Tells whether the connection is up.
    pub fn is_socket_connected(&self) -> (yes: bool)
        ensures
            yes == self.connected(),
    {
        self.is_connected
    }

    /// The configuration, with the timeout as last set.
    pub fn get_config(&self) -> (config: &DoipClientConfig)
        ensures
            *config == self.config(),
    {
        &self.config
    }

    /// Sets the timeout of the I/O calls that follow.
    pub fn set_timeout(&mut self, timeout_ms: u64)
        ensures
            final(self).connected() == old(self).connected(),
            final(self).config().ip_address == old(self).config().ip_address,
            final(self).config().port == old(self).config().port,
            final(self).config().timeout == Some(timeout_ms),
    {
        self.config.timeout = Some(timeout_ms);
    }
}

/// What `send` returns for an outcome.
pub open spec fn send_result(connected: bool, outcome: SendOutcome) -> Result<bool, DoipError> {
    if !connected {
        Err(DoipError::NotConnected)
    } else {
        match outcome {
            SendOutcome::NoSocket => Err(DoipError::NotConnected),
            SendOutcome::Written => Ok(true),
            SendOutcome::Failed(reason) => Err(DoipError::SendFailed(reason)),
        }
    }
}

/// The outcome is a read of no bytes: the peer has closed.
pub open spec fn closes(outcome: ReadOutcome) -> bool {
    outcome matches ReadOutcome::Read(bytes) && bytes@.len() == 0
}

/// What `receive` returns for an outcome.
pub open spec fn receive_result(connected: bool, outcome: ReadOutcome) -> Result<
    Vec<u8>,
    DoipError,
> {
    if !connected {
        Err(DoipError::NotConnected)
    } else {
        match outcome {
            ReadOutcome::NoSocket => Err(DoipError::NotConnected),
            ReadOutcome::Read(bytes) => if bytes@.len() > 0 {
                Ok(bytes)
            } else {
                Err(DoipError::ConnectionClosedByPeer)
            },
            ReadOutcome::Failed(reason) => Err(DoipError::ReceiveFailed(reason)),
            ReadOutcome::TimedOut => Err(DoipError::Timeout),
        }
    }
}

/// Nothing is received without a connection, and a read of no bytes on a
/// connection is the peer's closing it.
pub proof fn lemma_receive_needs_connection(outcome: ReadOutcome)
    ensures
        receive_result(false, outcome) == Err::<Vec<u8>, DoipError>(DoipError::NotConnected),
        closes(outcome) ==> receive_result(true, outcome) == Err::<Vec<u8>, DoipError>(
            DoipError::ConnectionClosedByPeer,
        ),
{
}

} // verus!
