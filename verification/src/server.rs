//! An in-process fake RPC server backing exactly one client over an
//! in-memory duplex connection. It models the login/connect/reconnect policy,
//! forced disconnects via a kill signal, and typed request/response
//! envelopes routed between the server end and the client end.

use vstd::prelude::*;

verus! {

/// A wire message: a stable kind tag standing for the message type, and its
/// payload. Typed dispatch is a runtime check of the kind tag.
#[derive(Clone, Debug, PartialEq, Eq)]
pub struct Message {
    pub kind: u64,
    pub body: String,
}

/// A message together with the routing data its envelope carries: the
/// connection-local id the sending peer assigned, and, for responses, the id
/// of the request being answered.
#[derive(Clone, Debug, PartialEq, Eq)]
pub struct TypedEnvelope {
    pub message_id: u64,
    pub responding_to: Option<u64>,
    pub payload: Message,
}

/// An opaque token carried by a request envelope, used to address its
/// response.
#[derive(Clone, Copy, Debug, PartialEq, Eq)]
pub struct Receipt {
    pub message_id: u64,
}

/// What a client hands to `connect`: its credentials, the session token it
/// chose, and whether it is trying to resume an earlier session.
#[derive(Clone, Debug)]
pub struct ConnectOptions {
    pub user_id: u64,
    pub access_token: String,
    pub connection_token: u128,
    pub is_reconnection: bool,
}

/// Denials of a connection attempt. Each carries an exact human-readable
/// message, available through [`ConnectError::message`].
#[derive(Clone, Copy, Debug, PartialEq, Eq)]
pub enum ConnectError {
    NewConnectionsForbidden,
    ReconnectionsForbidden,
    CannotReestablish,
}

impl ConnectError {
    /// The exact diagnostic string of this denial.
    pub fn message(&self) -> (r: String)
        ensures
            self is NewConnectionsForbidden ==> r@ == "server is forbidding connections"@,
            self is ReconnectionsForbidden ==> r@ == "server is forbidding reconnections"@,
            self is CannotReestablish ==> r@ == "cannot re-establish connection"@,
    {
        match self {
            ConnectError::NewConnectionsForbidden => "server is forbidding connections".to_string(),
            ConnectError::ReconnectionsForbidden => "server is forbidding reconnections".to_string(),
            ConnectError::CannotReestablish => "cannot re-establish connection".to_string(),
        }
    }
}

/// Failures of a receive: the transport ended (the other half hung up), or
/// the next envelope was of an unexpected kind — the latter is a test-harness
/// programmer error and fatal to the test.
#[derive(Clone, Copy, Debug, PartialEq, Eq)]
pub enum ReceiveError {
    HungUp,
    UnexpectedKind { kind: u64 },
}

impl ReceiveError {
    /// The exact diagnostic string of this failure.
    pub fn message(&self) -> (r: String)
        ensures
            self is HungUp ==> r@ == "other half hung up"@,
            self is UnexpectedKind ==> r@ == "fake server received unexpected message type"@,
    {
        match self {
            ReceiveError::HungUp => "other half hung up".to_string(),
            ReceiveError::UnexpectedKind { .. } => {
                "fake server received unexpected message type".to_string()
            },
        }
    }
}

/// The server-side descriptor of the client's connection. The `id` is
/// server-assigned and may change across reconnects; the `token` is the
/// client-chosen session nonce and does not. The two queues model the two
/// directions of the in-memory duplex transport; `killed` records that the
/// kill signal was fired on the current transport.
pub struct Connection {
    pub id: u64,
    pub token: u128,
    pub killed: bool,
    pub next_message_id: u64,
    pub to_client: Vec<TypedEnvelope>,
    pub to_server: Vec<TypedEnvelope>,
}

/// The mathematical state of a connection.
#[verifier::ext_equal]
pub ghost struct ConnModel {
    pub id: u64,
    pub token: u128,
    pub killed: bool,
    pub next_message_id: u64,
    pub to_client: Seq<TypedEnvelope>,
    pub to_server: Seq<TypedEnvelope>,
}

/// The mathematical state of the fake server: the user it serves, the
/// optional active connection, the two policy flags, and how many connection
/// ids it has handed out.
#[verifier::ext_equal]
pub ghost struct ServerModel {
    pub user: u64,
    pub connection: Option<ConnModel>,
    pub denies_new: bool,
    pub denies_reconnect: bool,
    pub connections_made: u64,
}

impl View for Connection {
    type V = ConnModel;

    closed spec fn view(&self) -> ConnModel {
        ConnModel {
            id: self.id,
            token: self.token,
            killed: self.killed,
            next_message_id: self.next_message_id,
            to_client: self.to_client@,
            to_server: self.to_server@,
        }
    }
}

impl ServerModel {
    /// The outcome of a connection attempt with session token `token`:
    /// reconnections are denied while the flag is set or when no live session
    /// with a matching token exists; fresh connections are denied while their
    /// flag is set; everything else succeeds.
    pub open spec fn connect_result(self, token: u128, recon: bool) -> Result<u64, ConnectError> {
        if recon {
            if self.denies_reconnect {
                Err(ConnectError::ReconnectionsForbidden)
            } else if self.connection is Some && self.connection->Some_0.token == token {
                Ok(self.connection->Some_0.id)
            } else {
                Err(ConnectError::CannotReestablish)
            }
        } else {
            if self.denies_new {
                Err(ConnectError::NewConnectionsForbidden)
            } else {
                Ok(self.connections_made)
            }
        }
    }

    /// The state after a connection attempt: a successful reconnection keeps
    /// the id, the token and the inbound queue and installs a fresh transport
    /// (kill signal cleared, client-bound queue emptied); a successful fresh
    /// connection replaces the connection with a brand-new one; a denied
    /// attempt changes nothing.
    pub open spec fn after_connect(self, token: u128, recon: bool) -> ServerModel {
        if recon {
            if !self.denies_reconnect && self.connection is Some && self.connection->Some_0.token
                == token {
                ServerModel {
                    connection: Some(
                        ConnModel {
                            killed: false,
                            to_client: Seq::empty(),
                            ..self.connection->Some_0
                        },
                    ),
                    ..self
                }
            } else {
                self
            }
        } else {
            if self.denies_new {
                self
            } else {
                ServerModel {
                    connection: Some(
                        ConnModel {
                            id: self.connections_made,
                            token,
                            killed: false,
                            next_message_id: 0,
                            to_client: Seq::empty(),
                            to_server: Seq::empty(),
                        },
                    ),
                    connections_made: (self.connections_made + 1) as u64,
                    ..self
                }
            }
        }
    }

    /// The state after the kill signal fires: the connection record stays (so
    /// a later reconnection can verify the token) but the transport is dead.
    pub open spec fn after_kill(self) -> ServerModel {
        ServerModel {
            connection: Some(ConnModel { killed: true, ..self.connection->Some_0 }),
            ..self
        }
    }

    /// The state after the server sends `message`: a fresh envelope is
    /// appended to the client-bound queue and the message counter advances.
    pub open spec fn after_send(self, message: Message) -> ServerModel {
        let c = self.connection->Some_0;
        ServerModel {
            connection: Some(
                ConnModel {
                    next_message_id: (c.next_message_id + 1) as u64,
                    to_client: c.to_client.push(
                        TypedEnvelope {
                            message_id: c.next_message_id,
                            responding_to: None,
                            payload: message,
                        },
                    ),
                    ..c
                },
            ),
            ..self
        }
    }

    /// What the client's next read yields: the head of the client-bound
    /// queue, or end-of-stream once the queue is drained on a killed
    /// transport.
    pub open spec fn client_receive_result(self) -> Result<TypedEnvelope, ReceiveError> {
        let c = self.connection->Some_0;
        if c.to_client.len() > 0 {
            Ok(c.to_client[0])
        } else {
            Err(ReceiveError::HungUp)
        }
    }

    /// The state after the client's next read.
    pub open spec fn after_client_receive(self) -> ServerModel {
        let c = self.connection->Some_0;
        if c.to_client.len() > 0 {
            ServerModel {
                connection: Some(ConnModel { to_client: c.to_client.skip(1), ..c }),
                ..self
            }
        } else {
            self
        }
    }
}

/// Law: a fresh (non-reconnect) attempt on a server that is not forbidding
/// new connections succeeds and binds the server to the client's session
/// token. With `for_client` constructing the server with both flags clear,
/// the client's first `authenticate_and_connect` therefore succeeds.
pub proof fn lemma_fresh_connect_succeeds(s: ServerModel, token: u128)
    requires
        !s.denies_new,
    ensures
        s.connect_result(token, false) is Ok,
        s.after_connect(token, false).connection is Some,
        s.after_connect(token, false).connection->Some_0.token == token,
        !s.after_connect(token, false).connection->Some_0.killed,
{
}

/// Law: while `forbid_new_connections` is set, every non-reconnect attempt
/// fails with exactly the "server is forbidding connections" denial and
/// leaves the server unchanged; once the flag is cleared, such attempts
/// succeed again.
pub proof fn lemma_forbid_new_connections_denies(s: ServerModel, token: u128)
    ensures
        s.denies_new ==> s.connect_result(token, false) == Err::<u64, ConnectError>(
            ConnectError::NewConnectionsForbidden,
        ) && s.after_connect(token, false) == s,
        !s.denies_new ==> s.connect_result(token, false) is Ok,
{
}

/// Law: after the kill signal fires, a reconnection with the matching token
/// succeeds and preserves the connection id and token on a fresh transport,
/// while a reconnection with any other token fails with the
/// "cannot re-establish connection" denial.
pub proof fn lemma_reconnect_after_kill(s: ServerModel, token: u128)
    requires
        s.connection is Some,
        !s.denies_reconnect,
    ensures
        ({
            let k = s.after_kill();
            &&& token == s.connection->Some_0.token ==> {
                &&& k.connect_result(token, true) == Ok::<u64, ConnectError>(
                    s.connection->Some_0.id,
                )
                &&& k.after_connect(token, true).connection is Some
                &&& k.after_connect(token, true).connection->Some_0.id
                    == s.connection->Some_0.id
                &&& k.after_connect(token, true).connection->Some_0.token
                    == s.connection->Some_0.token
                &&& !k.after_connect(token, true).connection->Some_0.killed
            }
            &&& token != s.connection->Some_0.token ==> k.connect_result(token, true)
                == Err::<u64, ConnectError>(ConnectError::CannotReestablish)
        }),
{
}

/// Law: a message the server sends is the next envelope the client receives,
/// with the payload intact.
pub proof fn lemma_send_receive_roundtrip(s: ServerModel, m: Message)
    requires
        s.connection is Some,
        s.connection->Some_0.to_client.len() == 0,
    ensures
        ({
            let s2 = s.after_send(m);
            &&& s2.connection->Some_0.to_client.len() == 1
            &&& s2.client_receive_result() == Ok::<TypedEnvelope, ReceiveError>(
                TypedEnvelope {
                    message_id: s.connection->Some_0.next_message_id,
                    responding_to: None,
                    payload: m,
                },
            )
            &&& s2.client_receive_result()->Ok_0.payload == m
        }),
{
}

/// The fake server: at most one active client connection, and two policy
/// flags that deny fresh connections or reconnections while set.
pub struct FakeServer {
    client_user_id: u64,
    connection: Option<Connection>,
    forbid_new_connections: bool,
    forbid_reconnections: bool,
    next_connection_id: u64,
}

impl View for FakeServer {
    type V = ServerModel;

    closed spec fn view(&self) -> ServerModel {
        ServerModel {
            user: self.client_user_id,
            connection: match self.connection {
                Some(c) => Some(c@),
                None => None,
            },
            denies_new: self.forbid_new_connections,
            denies_reconnect: self.forbid_reconnections,
            connections_made: self.next_connection_id,
        }
    }
}

impl FakeServer {
    /// A fresh server bound to the client identified by `client_user_id`:
    /// unconnected, with both policy flags clear. The login callback it
    /// stands behind answers every login with this user id and the fixed
    /// access token.
    pub fn for_client(client_user_id: u64) -> (s: FakeServer)
        ensures
            s@ == (ServerModel {
                user: client_user_id,
                connection: None::<ConnModel>,
                denies_new: false,
                denies_reconnect: false,
                connections_made: 0,
            }),
    {
        FakeServer {
            client_user_id,
            connection: None,
            forbid_new_connections: false,
            forbid_reconnections: false,
            next_connection_id: 0,
        }
    }

    /// Handle one connection attempt, as the login redirect hands it over.
    /// Returns the id of the (re)established connection, or the denial.
    pub fn connect(&mut self, opts: &ConnectOptions) -> (r: Result<u64, ConnectError>)
        requires
            !opts.is_reconnection ==> old(self)@.connections_made < u64::MAX,
        ensures
            r == old(self)@.connect_result(opts.connection_token, opts.is_reconnection),
            final(self)@ == old(self)@.after_connect(opts.connection_token, opts.is_reconnection),
    {
        if opts.is_reconnection {
            if self.forbid_reconnections {
                return Err(ConnectError::ReconnectionsForbidden);
            }
            let conn = self.connection.take();
            match conn {
                Some(mut c) => {
                    if c.token == opts.connection_token {
                        let id = c.id;
                        c.killed = false;
                        c.to_client = Vec::new();
                        self.connection = Some(c);
                        proof {
                            assert(self@ =~= old(self)@.after_connect(
                                opts.connection_token,
                                opts.is_reconnection,
                            ));
                        }
                        Ok(id)
                    } else {
                        self.connection = Some(c);
                        proof {
                            assert(self@ =~= old(self)@);
                        }
                        Err(ConnectError::CannotReestablish)
                    }
                },
                None => Err(ConnectError::CannotReestablish),
            }
        } else {
            if self.forbid_new_connections {
                return Err(ConnectError::NewConnectionsForbidden);
            }
            let id = self.next_connection_id;
            self.next_connection_id = self.next_connection_id + 1;
            self.connection = Some(
                Connection {
                    id,
                    token: opts.connection_token,
                    killed: false,
                    next_message_id: 0,
                    to_client: Vec::new(),
                    to_server: Vec::new(),
                },
            );
            proof {
                assert(self@ =~= old(self)@.after_connect(
                    opts.connection_token,
                    opts.is_reconnection,
                ));
            }
            Ok(id)
        }
    }

    /// The composition the installed callbacks produce: login answers with
    /// the bound user id and the fixed token "the-token", the connect
    /// callback checks that the credentials it got back are those very
    /// values (they are, by construction), and the attempt is handed to
    /// `connect` with the client's session token.
    pub fn authenticate_and_connect(&mut self, connection_token: u128, is_reconnection: bool) -> (r:
        Result<u64, ConnectError>)
        requires
            !is_reconnection ==> old(self)@.connections_made < u64::MAX,
        ensures
            r == old(self)@.connect_result(connection_token, is_reconnection),
            final(self)@ == old(self)@.after_connect(connection_token, is_reconnection),
    {
        let opts = ConnectOptions {
            user_id: self.client_user_id,
            access_token: "the-token".to_string(),
            connection_token,
            is_reconnection,
        };
        self.connect(&opts)
    }

    /// Tear down routing for the active connection and clear it; a later
    /// reconnection attempt finds no session to resume.
    pub fn disconnect(&mut self)
        requires
            old(self)@.connection is Some,
        ensures
            final(self)@ == (ServerModel { connection: None::<ConnModel>, ..old(self)@ }),
    {
        self.connection = None;
        proof {
            assert(self@ =~= (ServerModel { connection: None::<ConnModel>, ..old(self)@ }));
        }
    }

    /// Fire the kill signal: the in-memory transport surfaces end-of-stream
    /// to both ends, but the stored connection remains so that a subsequent
    /// reconnection can verify the token.
    pub fn kill_connection(&mut self)
        requires
            old(self)@.connection is Some,
        ensures
            final(self)@ == old(self)@.after_kill(),
    {
        let conn = self.connection.take();
        match conn {
            Some(mut c) => {
                c.killed = true;
                self.connection = Some(c);
                proof {
                    assert(self@ =~= old(self)@.after_kill());
                }
            },
            None => {
                proof {
                    assert(false);
                }
            },
        }
    }

    /// Deny fresh connection attempts until allowed again.
    pub fn forbid_new_connections(&mut self)
        ensures
            final(self)@ == (ServerModel { denies_new: true, ..old(self)@ }),
    {
        self.forbid_new_connections = true;
        proof {
            assert(self@ =~= (ServerModel { denies_new: true, ..old(self)@ }));
        }
    }

    /// Allow fresh connection attempts again.
    pub fn allow_new_connections(&mut self)
        ensures
            final(self)@ == (ServerModel { denies_new: false, ..old(self)@ }),
    {
        self.forbid_new_connections = false;
        proof {
            assert(self@ =~= (ServerModel { denies_new: false, ..old(self)@ }));
        }
    }

    /// Deny reconnection attempts until allowed again.
    pub fn forbid_reconnections(&mut self)
        ensures
            final(self)@ == (ServerModel { denies_reconnect: true, ..old(self)@ }),
    {
        self.forbid_reconnections = true;
        proof {
            assert(self@ =~= (ServerModel { denies_reconnect: true, ..old(self)@ }));
        }
    }

    /// Allow reconnection attempts again.
    pub fn allow_reconnections(&mut self)
        ensures
            final(self)@ == (ServerModel { denies_reconnect: false, ..old(self)@ }),
    {
        self.forbid_reconnections = false;
        proof {
            assert(self@ =~= (ServerModel { denies_reconnect: false, ..old(self)@ }));
        }
    }

    /// The id of the active connection.
    pub fn connection_id(&self) -> (r: u64)
        requires
            self@.connection is Some,
        ensures
            r == self@.connection->Some_0.id,
    {
        match &self.connection {
            Some(c) => c.id,
            None => {
                proof {
                    assert(false);
                }
                0
            },
        }
    }

    /// Push `message` onto the active connection, bound for the client.
    pub fn send(&mut self, message: Message)
        requires
            old(self)@.connection is Some,
            !old(self)@.connection->Some_0.killed,
            old(self)@.connection->Some_0.next_message_id < u64::MAX,
        ensures
            final(self)@ == old(self)@.after_send(message),
    {
        let conn = self.connection.take();
        match conn {
            Some(mut c) => {
                let envelope = TypedEnvelope {
                    message_id: c.next_message_id,
                    responding_to: None,
                    payload: message,
                };
                c.next_message_id = c.next_message_id + 1;
                c.to_client.push(envelope);
                self.connection = Some(c);
                proof {
                    assert(self@ =~= old(self)@.after_send(message));
                }
            },
            None => {
                proof {
                    assert(false);
                }
            },
        }
    }

    /// Deliver `response` to the originator of the request identified by
    /// `receipt`: an envelope marked as responding to that request is pushed
    /// onto the client-bound queue.
    pub fn respond(&mut self, receipt: Receipt, response: Message)
        requires
            old(self)@.connection is Some,
            !old(self)@.connection->Some_0.killed,
            old(self)@.connection->Some_0.next_message_id < u64::MAX,
        ensures
            ({
                let c = old(self)@.connection->Some_0;
                final(self)@ == (ServerModel {
                    connection: Some(
                        ConnModel {
                            next_message_id: (c.next_message_id + 1) as u64,
                            to_client: c.to_client.push(
                                TypedEnvelope {
                                    message_id: c.next_message_id,
                                    responding_to: Some(receipt.message_id),
                                    payload: response,
                                },
                            ),
                            ..c
                        },
                    ),
                    ..old(self)@
                })
            }),
    {
        let conn = self.connection.take();
        match conn {
            Some(mut c) => {
                let envelope = TypedEnvelope {
                    message_id: c.next_message_id,
                    responding_to: Some(receipt.message_id),
                    payload: response,
                };
                c.next_message_id = c.next_message_id + 1;
                c.to_client.push(envelope);
                self.connection = Some(c);
                proof {
                    let ghost cm = old(self)@.connection->Some_0;
                    assert(self@ =~= (ServerModel {
                        connection: Some(
                            ConnModel {
                                next_message_id: (cm.next_message_id + 1) as u64,
                                to_client: cm.to_client.push(
                                    TypedEnvelope {
                                        message_id: cm.next_message_id,
                                        responding_to: Some(receipt.message_id),
                                        payload: response,
                                    },
                                ),
                                ..cm
                            },
                        ),
                        ..old(self)@
                    }));
                }
            },
            None => {
                proof {
                    assert(false);
                }
            },
        }
    }

    /// What the client end sends toward the server: an envelope pushed onto
    /// the server-bound queue, with the next message id and, for responses to
    /// server requests, the id being answered.
    pub fn client_send(&mut self, responding_to: Option<u64>, message: Message)
        requires
            old(self)@.connection is Some,
            !old(self)@.connection->Some_0.killed,
            old(self)@.connection->Some_0.next_message_id < u64::MAX,
        ensures
            ({
                let c = old(self)@.connection->Some_0;
                final(self)@ == (ServerModel {
                    connection: Some(
                        ConnModel {
                            next_message_id: (c.next_message_id + 1) as u64,
                            to_server: c.to_server.push(
                                TypedEnvelope {
                                    message_id: c.next_message_id,
                                    responding_to,
                                    payload: message,
                                },
                            ),
                            ..c
                        },
                    ),
                    ..old(self)@
                })
            }),
    {
        let conn = self.connection.take();
        match conn {
            Some(mut c) => {
                let envelope = TypedEnvelope {
                    message_id: c.next_message_id,
                    responding_to,
                    payload: message,
                };
                c.next_message_id = c.next_message_id + 1;
                c.to_server.push(envelope);
                self.connection = Some(c);
                proof {
                    let ghost cm = old(self)@.connection->Some_0;
                    assert(self@ =~= (ServerModel {
                        connection: Some(
                            ConnModel {
                                next_message_id: (cm.next_message_id + 1) as u64,
                                to_server: cm.to_server.push(
                                    TypedEnvelope {
                                        message_id: cm.next_message_id,
                                        responding_to,
                                        payload: message,
                                    },
                                ),
                                ..cm
                            },
                        ),
                        ..old(self)@
                    }));
                }
            },
            None => {
                proof {
                    assert(false);
                }
            },
        }
    }

    /// Await the next envelope from the client and require it to carry the
    /// expected message kind. Returns the envelope; fails with `HungUp` once
    /// a killed transport is drained, or with `UnexpectedKind` — the fatal
    /// wrong-type case — naming the kind actually observed.
    pub fn receive(&mut self, expected_kind: u64) -> (r: Result<TypedEnvelope, ReceiveError>)
        requires
            old(self)@.connection is Some,
            old(self)@.connection->Some_0.to_server.len() > 0 || old(
                self,
            )@.connection->Some_0.killed,
        ensures
            ({
                let c = old(self)@.connection->Some_0;
                &&& c.to_server.len() == 0 ==> r == Err::<TypedEnvelope, ReceiveError>(
                    ReceiveError::HungUp,
                ) && final(self)@ == old(self)@
                &&& c.to_server.len() > 0 ==> {
                    &&& final(self)@ == (ServerModel {
                        connection: Some(ConnModel { to_server: c.to_server.skip(1), ..c }),
                        ..old(self)@
                    })
                    &&& c.to_server[0].payload.kind == expected_kind ==> r
                        == Ok::<TypedEnvelope, ReceiveError>(c.to_server[0])
                    &&& c.to_server[0].payload.kind != expected_kind ==> r
                        == Err::<TypedEnvelope, ReceiveError>(
                        ReceiveError::UnexpectedKind { kind: c.to_server[0].payload.kind },
                    )
                }
            }),
    {
        let conn = self.connection.take();
        match conn {
            Some(mut c) => {
                if c.to_server.len() == 0 {
                    self.connection = Some(c);
                    proof {
                        assert(self@ =~= old(self)@);
                    }
                    Err(ReceiveError::HungUp)
                } else {
                    let ghost before = c.to_server@;
                    let envelope = c.to_server.remove(0);
                    self.connection = Some(c);
                    proof {
                        before.remove_ensures(0);
                        assert(before.remove(0) =~= before.skip(1));
                        let ghost cm = old(self)@.connection->Some_0;
                        assert(self@ =~= (ServerModel {
                            connection: Some(ConnModel { to_server: cm.to_server.skip(1), ..cm }),
                            ..old(self)@
                        }));
                    }
                    if envelope.payload.kind == expected_kind {
                        Ok(envelope)
                    } else {
                        let kind = envelope.payload.kind;
                        Err(ReceiveError::UnexpectedKind { kind })
                    }
                }
            },
            None => {
                proof {
                    assert(false);
                }
                Err(ReceiveError::HungUp)
            },
        }
    }

    /// The client end's next read: the head of the client-bound queue, or
    /// `HungUp` once a killed transport is drained.
    pub fn client_receive(&mut self) -> (r: Result<TypedEnvelope, ReceiveError>)
        requires
            old(self)@.connection is Some,
            old(self)@.connection->Some_0.to_client.len() > 0 || old(
                self,
            )@.connection->Some_0.killed,
        ensures
            r == old(self)@.client_receive_result(),
            final(self)@ == old(self)@.after_client_receive(),
    {
        let conn = self.connection.take();
        match conn {
            Some(mut c) => {
                if c.to_client.len() == 0 {
                    self.connection = Some(c);
                    proof {
                        assert(self@ =~= old(self)@);
                    }
                    Err(ReceiveError::HungUp)
                } else {
                    let ghost before = c.to_client@;
                    let envelope = c.to_client.remove(0);
                    self.connection = Some(c);
                    proof {
                        before.remove_ensures(0);
                        assert(before.remove(0) =~= before.skip(1));
                        assert(self@ =~= old(self)@.after_client_receive());
                    }
                    Ok(envelope)
                }
            },
            None => {
                proof {
                    assert(false);
                }
                Err(ReceiveError::HungUp)
            },
        }
    }
}

} // verus!
