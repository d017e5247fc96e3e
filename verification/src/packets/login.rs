//! The login phase messages: login start, the encryption handshake pair,
//! login success, the login disconnect and the acknowledgement.

use vstd::prelude::*;

use crate::errors::PacketReadError;
use crate::json_text::{disconnect_json, spec_disconnect_json};
use crate::packet::{frame_bytes, le_bytes, le_value, PacketReader, PacketWriter};
use crate::packet_utils::{lemma_varint_bytes_len, parse_byte_block, parse_string, varint_bytes};
use crate::packets::{bool_byte, bytes_field, string_field};

verus! {

/// A string field takes its UTF-8 bytes plus at most five prefix bytes.
pub proof fn lemma_string_field_len(s: Seq<char>)
    ensures
        vstd::utf8::encode_utf8(s).len() <= string_field(s).len() <= 5 + vstd::utf8::encode_utf8(
            s,
        ).len(),
{
    lemma_varint_bytes_len(vstd::utf8::encode_utf8(s).len() as u32);
}

/// A byte-array field takes its bytes plus at most five prefix bytes.
pub proof fn lemma_bytes_field_len(b: Seq<u8>)
    ensures
        b.len() <= bytes_field(b).len() <= 5 + b.len(),
{
    lemma_varint_bytes_len(b.len() as u32);
}

/// The login start: the client-declared name and identifier.
pub struct LoginServerboundLoginStart {
    pub name: String,
    pub uuid: u128,
}

/// What a login-start payload parses to: name, uuid and bytes consumed.
pub open spec fn parse_login_start(s: Seq<u8>) -> Result<(Seq<char>, u128, int), PacketReadError> {
    match parse_string(s) {
        Ok((name, l1)) => {
            let t = s.skip(l1);
            if t.len() < 16 {
                Err(PacketReadError::BufferUnderflow)
            } else {
                Ok((name, le_value(t.take(16)) as u128, l1 + 16))
            }
        },
        Err(e) => Err(e),
    }
}

impl LoginServerboundLoginStart {
    /// The login-start packet id.
    pub fn packet_id() -> (r: i32)
        ensures
            r == 0,
    {
        0x00
    }

    /// Read a login start: a string name, then a 16-byte identifier.
    pub fn read(reader: &mut PacketReader) -> (r: Result<
        LoginServerboundLoginStart,
        PacketReadError,
    >)
        requires
            old(reader).wf(),
        ensures
            final(reader).wf(),
            match r {
                Ok(p) => parse_login_start(old(reader).rem()) matches Ok((name, uuid, adv))
                    && p.name@ == name && p.uuid == uuid && final(reader).rem() == old(
                    reader,
                ).rem().skip(adv),
                Err(e) => parse_login_start(old(reader).rem()) matches Err(e2) && e == e2,
            },
    {
        let ghost s0 = reader.rem();
        proof {
            crate::packet_utils::lemma_parse_string_adv(s0);
        }
        let name: String = match reader.read_string() {
            Ok(v) => v,
            Err(e) => {
                return Err(e);
            },
        };
        let ghost l1 = s0.len() - reader.rem().len();
        proof {
            assert(reader.rem() =~= s0.skip(l1));
        }
        let uuid: u128 = match reader.read_uuid() {
            Ok(v) => v,
            Err(e) => {
                return Err(e);
            },
        };
        proof {
            assert(reader.rem() =~= s0.skip(l1 + 16));
        }
        Ok(LoginServerboundLoginStart { name, uuid })
    }
}

/// The encryption response: the shared secret and the verify token, both
/// encrypted under the server's public key.
pub struct LoginServerboundEncryptionResponse {
    pub shared_secret: Vec<u8>,
    pub verify_token: Vec<u8>,
}

/// What an encryption-response payload parses to: the two encrypted blocks
/// and the bytes consumed.
pub open spec fn parse_encryption_response(s: Seq<u8>) -> Result<
    (Seq<u8>, Seq<u8>, int),
    PacketReadError,
> {
    match parse_byte_block(s) {
        Ok((secret, l1)) => match parse_byte_block(s.skip(l1)) {
            Ok((token, l2)) => Ok((secret, token, l1 + l2)),
            Err(e) => Err(e),
        },
        Err(e) => Err(e),
    }
}

impl LoginServerboundEncryptionResponse {
    /// The encryption-response packet id.
    pub fn packet_id() -> (r: i32)
        ensures
            r == 1,
    {
        0x01
    }

    /// Read an encryption response: two length-prefixed byte arrays.
    pub fn read(reader: &mut PacketReader) -> (r: Result<
        LoginServerboundEncryptionResponse,
        PacketReadError,
    >)
        requires
            old(reader).wf(),
        ensures
            final(reader).wf(),
            match r {
                Ok(p) => parse_encryption_response(old(reader).rem()) matches Ok(
                    (secret, token, adv),
                ) && p.shared_secret@ == secret && p.verify_token@ == token && final(reader).rem()
                    == old(reader).rem().skip(adv),
                Err(e) => parse_encryption_response(old(reader).rem()) matches Err(e2) && e == e2,
            },
    {
        let ghost s0 = reader.rem();
        proof {
            crate::packet_utils::lemma_parse_byte_block_adv(s0);
        }
        let shared_secret: Vec<u8> = match reader.read_byte_block() {
            Ok(v) => v,
            Err(e) => {
                return Err(e);
            },
        };
        let ghost l1 = s0.len() - reader.rem().len();
        proof {
            assert(reader.rem() =~= s0.skip(l1));
            crate::packet_utils::lemma_parse_byte_block_adv(s0.skip(l1));
        }
        let verify_token: Vec<u8> = match reader.read_byte_block() {
            Ok(v) => v,
            Err(e) => {
                return Err(e);
            },
        };
        let ghost l2 = s0.skip(l1).len() - reader.rem().len();
        proof {
            assert(reader.rem() =~= s0.skip(l1 + l2));
        }
        Ok(LoginServerboundEncryptionResponse { shared_secret, verify_token })
    }
}

/// The empty login acknowledgement.
pub struct LoginServerboundLoginAcknowledged {}

impl LoginServerboundLoginAcknowledged {
    /// The login-acknowledged packet id.
    pub fn packet_id() -> (r: i32)
        ensures
            r == 3,
    {
        0x03
    }

    /// Read a login acknowledgement: it carries no fields.
    pub fn read(reader: &mut PacketReader) -> (r: Result<
        LoginServerboundLoginAcknowledged,
        PacketReadError,
    >)
        requires
            old(reader).wf(),
        ensures
            final(reader).wf(),
            *final(reader) == *old(reader),
            r is Ok,
    {
        Ok(LoginServerboundLoginAcknowledged {})
    }
}

/// The login disconnect: one JSON document giving the reason.
pub struct LoginClientboundDisconnect {
    pub json_disconnect_reason: String,
}

impl LoginClientboundDisconnect {
    /// Wrap a plain reason into the JSON document.
    pub fn from_string(reason: String) -> (r: LoginClientboundDisconnect)
        ensures
            r.json_disconnect_reason@ == spec_disconnect_json(reason@),
    {
        LoginClientboundDisconnect { json_disconnect_reason: disconnect_json(reason.as_str()) }
    }

    /// The login-disconnect packet id.
    pub fn packet_id() -> (r: i32)
        ensures
            r == 0,
    {
        0x00
    }

    /// Build the disconnect frame: the JSON document as a string field.
    pub fn build(&self) -> (r: Vec<u8>)
        requires
            string_field(self.json_disconnect_reason@).len() + 10 < 0x8000_0000,
        ensures
            r@ == frame_bytes(0, string_field(self.json_disconnect_reason@)),
    {
        let mut writer = PacketWriter::new(Self::packet_id());
        writer.write_string(self.json_disconnect_reason.as_str());
        proof {
            assert(writer.payload() =~= string_field(self.json_disconnect_reason@));
        }
        writer.build_uncompressed()
    }
}

/// The encryption request: the server's DER public key, a fresh verify
/// token, and whether remote authentication will follow.
pub struct LoginClientboundEncryptionRequest {
    pub public_key: Vec<u8>,
    pub verify_token: Vec<u8>,
    pub should_authenticate: bool,
}

/// The encryption request payload: an empty server id, the key, the token
/// and the authentication flag.
pub open spec fn encryption_request_payload(
    public_key: Seq<u8>,
    verify_token: Seq<u8>,
    should_authenticate: bool,
) -> Seq<u8> {
    string_field(""@) + bytes_field(public_key) + bytes_field(verify_token) + bool_byte(
        should_authenticate,
    )
}

impl LoginClientboundEncryptionRequest {
    /// The encryption-request packet id.
    pub fn packet_id() -> (r: i32)
        ensures
            r == 1,
    {
        0x01
    }

    /// Build the encryption request frame.
    pub fn build(&self) -> (r: Vec<u8>)
        requires
            self.public_key@.len() + self.verify_token@.len() + 40 < 0x8000_0000,
        ensures
            r@ == frame_bytes(
                1,
                encryption_request_payload(
                    self.public_key@,
                    self.verify_token@,
                    self.should_authenticate,
                ),
            ),
    {
        proof {
            assert(vstd::utf8::encode_utf8(""@).len() == 0) by {
                reveal_strlit("");
                assert(""@ =~= Seq::<char>::empty());
            }
        }
        let mut writer = PacketWriter::new(Self::packet_id());
        writer.write_string("");
        writer.write_varint(self.public_key.len() as i32);
        writer.write_byte_array(self.public_key.as_slice());
        writer.write_varint(self.verify_token.len() as i32);
        writer.write_byte_array(self.verify_token.as_slice());
        writer.write_boolean(self.should_authenticate);
        proof {
            lemma_string_field_len(""@);
            lemma_bytes_field_len(self.public_key@);
            lemma_bytes_field_len(self.verify_token@);
            assert(writer.payload() =~= encryption_request_payload(
                self.public_key@,
                self.verify_token@,
                self.should_authenticate,
            ));
        }
        writer.build_uncompressed()
    }
}

/// One signed profile property of a login success.
pub struct LoginSuccessProperty {
    pub name: String,
    pub value: String,
    pub signature: Option<String>,
}

/// The wire form of one profile property.
pub open spec fn property_field(p: LoginSuccessProperty) -> Seq<u8> {
    string_field(p.name@) + string_field(p.value@) + (match p.signature {
        Some(sig) => bool_byte(true) + string_field(sig@),
        None => bool_byte(false),
    })
}

/// The wire form of a property list, in order.
pub open spec fn properties_bytes(ps: Seq<LoginSuccessProperty>) -> Seq<u8>
    decreases ps.len(),
{
    if ps.len() == 0 {
        seq![]
    } else {
        property_field(ps[0]) + properties_bytes(ps.drop_first())
    }
}

proof fn lemma_properties_push(ps: Seq<LoginSuccessProperty>, p: LoginSuccessProperty)
    ensures
        properties_bytes(ps.push(p)) == properties_bytes(ps) + property_field(p),
    decreases ps.len(),
{
    if ps.len() == 0 {
        assert(ps.push(p)[0] == p);
        assert(ps.push(p).drop_first() =~= Seq::<LoginSuccessProperty>::empty());
        assert(properties_bytes(Seq::<LoginSuccessProperty>::empty())
            =~= Seq::<u8>::empty());
        assert(properties_bytes(ps.push(p)) =~= properties_bytes(ps) + property_field(p));
    } else {
        assert(ps.push(p)[0] == ps[0]);
        assert(ps.push(p).drop_first() =~= ps.drop_first().push(p));
        lemma_properties_push(ps.drop_first(), p);
        assert(properties_bytes(ps.push(p)) =~= properties_bytes(ps) + property_field(p));
    }
}

/// Sizes under which a login-success reply is sure to fit in a frame: a
/// name of at most a mebibyte of UTF-8, at most 256 properties, each of
/// whose strings is at most a mebibyte.
pub open spec fn login_reply_fits(username: Seq<char>, ps: Seq<LoginSuccessProperty>) -> bool {
    &&& vstd::utf8::encode_utf8(username).len() <= 0x100000
    &&& ps.len() <= 256
    &&& forall|i: int|
        0 <= i < ps.len() ==> property_fits(#[trigger] ps[i])
}

/// One property within the reply size limit.
pub open spec fn property_fits(p: LoginSuccessProperty) -> bool {
    &&& vstd::utf8::encode_utf8(p.name@).len() <= 0x100000
    &&& vstd::utf8::encode_utf8(p.value@).len() <= 0x100000
    &&& (p.signature matches Some(sig) ==> vstd::utf8::encode_utf8(sig@).len() <= 0x100000)
}

proof fn lemma_property_field_len(p: LoginSuccessProperty)
    requires
        property_fits(p),
    ensures
        property_field(p).len() <= 0x300010,
{
    lemma_string_field_len(p.name@);
    lemma_string_field_len(p.value@);
    if p.signature is Some {
        lemma_string_field_len(p.signature->0@);
    }
}

proof fn lemma_properties_bytes_len(ps: Seq<LoginSuccessProperty>)
    requires
        forall|i: int| 0 <= i < ps.len() ==> property_fits(#[trigger] ps[i]),
    ensures
        properties_bytes(ps).len() <= ps.len() * 0x300010,
    decreases ps.len(),
{
    if ps.len() > 0 {
        lemma_property_field_len(ps[0]);
        assert(forall|i: int|
            0 <= i < ps.drop_first().len() ==> property_fits(#[trigger] ps.drop_first()[i]));
        lemma_properties_bytes_len(ps.drop_first());
        assert((ps.len() - 1) * 0x300010 + 0x300010 == ps.len() * 0x300010) by (nonlinear_arith);
    }
}

/// The login success payload: the confirmed identifier, the name, the
/// signed properties and the strict-error-handling flag.
pub open spec fn login_success_payload(
    uuid: u128,
    username: Seq<char>,
    ps: Seq<LoginSuccessProperty>,
    strict: bool,
) -> Seq<u8> {
    le_bytes(uuid as nat, 16) + string_field(username) + varint_bytes(ps.len() as u32)
        + properties_bytes(ps) + bool_byte(strict)
}

/// Within the reply size limits, the whole payload fits a frame.
pub proof fn lemma_login_success_payload_len(
    uuid: u128,
    username: Seq<char>,
    ps: Seq<LoginSuccessProperty>,
    strict: bool,
)
    requires
        login_reply_fits(username, ps),
    ensures
        login_success_payload(uuid, username, ps, strict).len() + 10 < 0x8000_0000,
{
    crate::packet::lemma_le_bytes_len(uuid as nat, 16);
    lemma_string_field_len(username);
    lemma_varint_bytes_len(ps.len() as u32);
    lemma_properties_bytes_len(ps);
    assert(ps.len() * 0x300010 <= 256 * 0x300010) by (nonlinear_arith)
        requires
            ps.len() <= 256,
    ;
}

/// The login success: the confirmed identity the connection proceeds with.
pub struct LoginClientboundLoginSuccess {
    pub uuid: u128,
    pub username: String,
    pub properties: Vec<LoginSuccessProperty>,
    pub strict_error_handling: bool,
}

impl LoginClientboundLoginSuccess {
    /// The login-success packet id.
    pub fn packet_id() -> (r: i32)
        ensures
            r == 2,
    {
        0x02
    }

    /// Whether this reply is within the frame size limits.
    pub fn fits(&self) -> (r: bool)
        ensures
            r == login_reply_fits(self.username@, self.properties@),
    {
        if self.username.as_str().as_bytes().len() > 0x100000 {
            return false;
        }
        if self.properties.len() > 256 {
            return false;
        }
        let n: usize = self.properties.len();
        let mut i: usize = 0;
        while i < n
            invariant
                n == self.properties@.len(),
                i <= n,
                forall|j: int| 0 <= j < i ==> property_fits(#[trigger] self.properties@[j]),
            decreases n - i,
        {
            let p: &LoginSuccessProperty = &self.properties[i];
            if p.name.as_str().as_bytes().len() > 0x100000 || p.value.as_str().as_bytes().len()
                > 0x100000 {
                return false;
            }
            match &p.signature {
                Some(sig) => {
                    if sig.as_str().as_bytes().len() > 0x100000 {
                        return false;
                    }
                },
                None => {},
            }
            i = i + 1;
        }
        true
    }

    /// Build the login success frame.
    #[verifier::rlimit(50)]
    pub fn build(&self) -> (r: Vec<u8>)
        requires
            login_reply_fits(self.username@, self.properties@),
        ensures
            r@ == frame_bytes(
                2,
                login_success_payload(
                    self.uuid,
                    self.username@,
                    self.properties@,
                    self.strict_error_handling,
                ),
            ),
    {
        proof {
            lemma_login_success_payload_len(
                self.uuid,
                self.username@,
                self.properties@,
                self.strict_error_handling,
            );
            lemma_string_field_len(self.username@);
        }
        let mut writer = PacketWriter::new(Self::packet_id());
        writer.write_uuid(self.uuid);
        writer.write_string(self.username.as_str());
        writer.write_varint(self.properties.len() as i32);
        let ghost head = writer.payload();
        let n: usize = self.properties.len();
        let mut i: usize = 0;
        proof {
            assert(self.properties@.take(0) =~= Seq::<LoginSuccessProperty>::empty());
            assert(writer.payload() =~= head + properties_bytes(self.properties@.take(0)));
        }
        while i < n
            invariant
                n == self.properties@.len(),
                i <= n,
                forall|j: int| 0 <= j < n ==> property_fits(#[trigger] self.properties@[j]),
                writer.spec_id() == 2,
                writer.payload() == head + properties_bytes(self.properties@.take(i as int)),
            decreases n - i,
        {
            let p: &LoginSuccessProperty = &self.properties[i];
            proof {
                lemma_string_field_len(p.name@);
                lemma_string_field_len(p.value@);
                if p.signature is Some {
                    lemma_string_field_len(p.signature->0@);
                }
            }
            writer.write_string(p.name.as_str());
            writer.write_string(p.value.as_str());
            match &p.signature {
                Some(sig) => {
                    writer.write_boolean(true);
                    writer.write_string(sig.as_str());
                },
                None => {
                    writer.write_boolean(false);
                },
            }
            proof {
                lemma_properties_push(self.properties@.take(i as int), self.properties@[i as int]);
                assert(self.properties@.take(i + 1) =~= self.properties@.take(i as int).push(
                    self.properties@[i as int],
                ));
                assert(writer.payload() =~= head + properties_bytes(
                    self.properties@.take(i + 1),
                ));
            }
            i = i + 1;
        }
        writer.write_boolean(self.strict_error_handling);
        proof {
            assert(self.properties@.take(n as int) =~= self.properties@);
            assert(writer.payload() =~= login_success_payload(
                self.uuid,
                self.username@,
                self.properties@,
                self.strict_error_handling,
            ));
            lemma_login_success_payload_len(
                self.uuid,
                self.username@,
                self.properties@,
                self.strict_error_handling,
            );
        }
        writer.build_uncompressed()
    }
}

} // verus!
