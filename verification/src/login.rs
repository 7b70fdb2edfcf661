//! The two steps of a login and the registration, as a client performs them
//! on the bytes of the messages.

use crate::bigint::{le_nat, pad, U4096};
use crate::client::{
    client_public, client_session, password_scalar, verifier_of, SrpClient4096,
    SrpClientVerifier4096,
};
use crate::codec::{encode_within, Data};
use crate::group::mod_n;
use crate::hash::{Blake2b, A2, MAX_CREDENTIAL_LEN};
use crate::messages::{lemma_message_sizes, AuthReq, PreAuthReq, PreAuthResp, RegisterReq};
use vstd::prelude::*;
use vstd::string::StringSliceAdditionalSpecFns;

verus! {

/// The digest of every hash point on the client.
pub type Digest = Blake2b;

/// The size of the buffer in which a client builds a request or takes a
/// response.
pub const BUFFER_SIZE: usize = 1024;

/// Why the first step of a login failed.
#[derive(Clone, Copy, Debug, PartialEq, Eq, Structural)]
pub enum LoginError {
    /// The server's response is too long or is no pre-auth response.
    InvalidData,
    /// The server's public ephemeral was refused.
    AuthenticationFailed,
}

/// The text of [`LoginError::message`] for each error.
pub open spec fn login_message_of(e: LoginError) -> Seq<char> {
    match e {
        LoginError::InvalidData => "invalid data"@,
        LoginError::AuthenticationFailed => "authentication failed"@,
    }
}

impl LoginError {
    /// A short text that names the error.
    pub fn message(&self) -> (r: &'static str)
        ensures
            r@ == login_message_of(*self),
    {
        match *self {
            LoginError::InvalidData => "invalid data",
            LoginError::AuthenticationFailed => "authentication failed",
        }
    }
}

/// A login before the server has answered.
pub struct Step1 {
    client: SrpClient4096<A2, Digest>,
}

/// A login after the server's answer was accepted.
pub struct Step2 {
    verifier: SrpClientVerifier4096<Digest>,
    key: [u8; 8],
}

/// Whether the first step takes the response `resp`. It does where `resp`
/// has at most [`BUFFER_SIZE`] bytes, starts with a pre-auth response, and
/// holds a public ephemeral that is not zero modulo `N`.
pub open spec fn accepts(resp: Seq<u8>) -> Result<(), LoginError> {
    if resp.len() > BUFFER_SIZE || PreAuthResp::frame(resp) is None {
        Err(LoginError::InvalidData)
    } else if mod_n(le_nat(resp.subrange(32, 544)) as int) == 0 {
        Err(LoginError::AuthenticationFailed)
    } else {
        Ok(())
    }
}

/// A pre-auth response is the first 552 bytes of what holds it.
pub proof fn lemma_pre_auth_resp_frame(data: Seq<u8>)
    ensures
        PreAuthResp::frame(data) == if data.len() >= 552 {
            Some(552nat)
        } else {
            None
        },
{
    if data.len() >= 32 {
        let rest = data.skip(32);
        if rest.len() >= 512 {
            assert(rest.skip(512).len() == rest.len() - 512);
        }
    }
}

impl Step1 {
    /// The client's private ephemeral.
    pub closed spec fn secret(&self) -> nat {
        self.client.secret()
    }

    /// A login with the private ephemeral that the 512 bytes `a` spell,
    /// least significant first. The caller has drawn them at random.
    pub fn new(a: [u8; 512]) -> (s: Self)
        ensures
            s.secret() == le_nat(a@),
    {
        Step1 { client: SrpClient4096::new(U4096::from_le_bytes(a)) }
    }

    /// The pre-auth request for `username`, where it fits in a buffer of
    /// [`BUFFER_SIZE`] bytes.
    pub fn req(&self, username: &str) -> (r: Option<Vec<u8>>)
        ensures
            r is Some <==> username.spec_bytes().len() + 514 <= BUFFER_SIZE,
            r matches Some(bytes) ==> bytes@ == pad(client_public(self.secret())).reverse()
                + crate::codec::string_wire(username.spec_bytes()),
    {
        let a_pub = self.client.compute_a_pub();
        let req = PreAuthReq { a_pub: a_pub.to_le_bytes(), username };
        assert(req.wire() =~= req.a_pub@ + crate::codec::string_wire(username.spec_bytes()));
        encode_within(&req, BUFFER_SIZE)
    }

    /// Takes the server's pre-auth response and derives the session.
    pub fn auth(&self, username: &str, password: &str, resp: &[u8]) -> (r: Result<
        Step2,
        LoginError,
    >)
        requires
            username.spec_bytes().len() <= MAX_CREDENTIAL_LEN,
            password.spec_bytes().len() <= MAX_CREDENTIAL_LEN,
        ensures
            accepts(resp@) is Err ==> r is Err && r->Err_0 == accepts(resp@)->Err_0,
            accepts(resp@) is Ok ==> r is Ok && r->Ok_0.key_spec() == resp@.subrange(544, 552)
                && r->Ok_0.session() == client_session::<A2, Digest>(
                self.secret(),
                username.spec_bytes(),
                password.spec_bytes(),
                resp@.subrange(0, 32),
                le_nat(resp@.subrange(32, 544)),
            ),
    {
        if resp.len() > BUFFER_SIZE {
            return Err(LoginError::InvalidData);
        }
        proof {
            lemma_pre_auth_resp_frame(resp@);
        }
        let message = match PreAuthResp::decode(resp) {
            Some((message, _)) => message,
            None => { return Err(LoginError::InvalidData); },
        };
        proof {
            let w = message.wire();
            assert(w =~= message.salt@ + (message.b_pub@ + message.key@));
            assert(message.salt@ =~= w.subrange(0, 32));
            assert(message.b_pub@ =~= w.subrange(32, 544));
            assert(message.key@ =~= w.subrange(544, 552));
            assert(w.subrange(0, 32) =~= resp@.subrange(0, 32));
            assert(w.subrange(32, 544) =~= resp@.subrange(32, 544));
            assert(w.subrange(544, 552) =~= resp@.subrange(544, 552));
        }
        let b_pub = U4096::from_le_bytes(message.b_pub);
        match self.client.process_reply(
            username.as_bytes(),
            password.as_bytes(),
            &message.salt,
            &b_pub,
        ) {
            Ok(verifier) => Ok(Step2 { verifier, key: message.key }),
            Err(_) => Err(LoginError::AuthenticationFailed),
        }
    }
}

impl Step2 {
    /// The key of the handshake, as the server sent it.
    pub closed spec fn key_spec(&self) -> Seq<u8> {
        self.key@
    }

    /// The session that the client derived.
    pub closed spec fn session(&self) -> crate::Session {
        self.verifier@
    }

    /// The auth request: the client's proof and the key of the handshake.
    /// It always fits in its buffer.
    pub fn req(&self) -> (r: Option<Vec<u8>>)
        ensures
            r matches Some(bytes) && bytes@ == self.session().m1 + self.key_spec(),
    {
        let req = AuthReq { proof: *self.verifier.proof_bytes(), key: self.key };
        assert(req.wire() =~= req.proof@ + req.key@);
        proof {
            lemma_message_sizes();
        }
        encode_within(&req, AuthReq::SIZE)
    }

    /// The shared key, least significant byte first.
    pub fn get_key(&self) -> (r: [u8; 512])
        ensures
            r@ == pad(self.session().key).reverse(),
            le_nat(r@) == self.session().key,
    {
        self.verifier.key().to_le_bytes()
    }

    /// Checks the proof that the server sent in its auth response.
    pub fn verify_server(&self, reply: &[u8]) -> (r: bool)
        ensures
            r == (reply@ == self.session().m2),
    {
        self.verifier.verify_server(reply).is_ok()
    }
}

/// The registration request for the credentials and the salt, which the
/// caller has drawn at random; nothing where the request does not fit in a
/// buffer of [`BUFFER_SIZE`] bytes.
pub fn register(username: &str, password: &str, salt: [u8; 32]) -> (r: Option<Vec<u8>>)
    requires
        username.spec_bytes().len() <= MAX_CREDENTIAL_LEN,
        password.spec_bytes().len() <= MAX_CREDENTIAL_LEN,
    ensures
        r is Some <==> username.spec_bytes().len() + 546 <= BUFFER_SIZE,
        r matches Some(bytes) ==> bytes@ == crate::codec::string_wire(username.spec_bytes())
            + salt@ + pad(
            verifier_of(
                password_scalar::<A2>(username.spec_bytes(), password.spec_bytes(), salt@),
            ),
        ).reverse(),
{
    let verifier = SrpClient4096::<A2, Digest>::compute_verifier(
        username.as_bytes(),
        password.as_bytes(),
        &salt,
    );
    let req = RegisterReq { username, salt, verifier: verifier.to_le_bytes() };
    assert(req.wire() =~= crate::codec::string_wire(username.spec_bytes()) + salt@
        + req.verifier@);
    encode_within(&req, BUFFER_SIZE)
}

} // verus!
