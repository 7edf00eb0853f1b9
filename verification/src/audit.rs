//! The audit chain: every policy decision becomes an entry whose hash covers the previous
//! entry's hash and the decision's fields, signed with the node's Ed25519 key.
use vstd::prelude::*;
use vstd::utf8;
use crate::crypto;
use crate::crypto::{ed25519_public_key_of, ed25519_sign, ed25519_verify, hex_decode, hex_encode, sha256};
use crate::text;
use crate::text::{decimal_string, push_bytes};

verus! {

/// An audit entry as stored, with the id the store gave it.
pub struct AuditRecord {
    pub id: i64,
    pub timestamp: String,
    pub environment: String,
    pub payload_size: i64,
    pub allowed: bool,
    pub message: String,
    pub previous_hash: String,
    pub hash: String,
    pub signature: String,
}

/// An audit entry as made, before the store gives it an id.
pub struct AuditEntry {
    pub timestamp: String,
    pub environment: String,
    pub payload_size: i64,
    pub allowed: bool,
    pub message: String,
    pub previous_hash: String,
    pub hash: String,
    pub signature: String,
}

/// The hash that stands before the first entry of a chain.
pub open spec fn genesis() -> Seq<char> {
    "GENESIS"@
}

/// The flag character recorded for a decision.
pub open spec fn allowed_flag(allowed: bool) -> Seq<char> {
    if allowed {
        "1"@
    } else {
        "0"@
    }
}

/// The decision flag is one byte: '1' (49) when allowed, '0' (48) when not.
pub proof fn lemma_flag_bytes(allowed: bool)
    ensures
        utf8::encode_utf8(allowed_flag(allowed)) == if allowed {
            seq![49u8]
        } else {
            seq![48u8]
        },
{
    reveal_strlit("1");
    reveal_strlit("0");
    let flag = allowed_flag(allowed);
    assert(utf8::is_ascii_chars(flag));
    utf8::is_ascii_chars_encode_utf8(flag);
    assert(utf8::encode_utf8(flag) =~= if allowed {
        seq![49u8]
    } else {
        seq![48u8]
    });
}

/// The bytes an entry's hash is taken over: the previous hash, the timestamp, the environment,
/// the payload size in decimal, the decision flag and the message, in that order.
pub open spec fn entry_preimage(
    previous: Seq<char>,
    timestamp: Seq<char>,
    environment: Seq<char>,
    payload_size: nat,
    allowed: bool,
    message: Seq<char>,
) -> Seq<u8> {
    utf8::encode_utf8(previous) + utf8::encode_utf8(timestamp) + utf8::encode_utf8(environment) + utf8::encode_utf8(
        text::decimal_chars(payload_size),
    ) + utf8::encode_utf8(allowed_flag(allowed)) + utf8::encode_utf8(message)
}

/// Equal byte strings around a middle part force the middle parts to be equal.
proof fn lemma_middle_cancels(a: Seq<u8>, x: Seq<u8>, y: Seq<u8>, b: Seq<u8>)
    requires
        a + x + b == a + y + b,
    ensures
        x == y,
{
    assert((a + x + b).len() == a.len() + x.len() + b.len());
    assert((a + y + b).len() == a.len() + y.len() + b.len());
    assert(x.len() == y.len());
    assert(x =~= (a + x + b).subrange(a.len() as int, (a.len() + x.len()) as int));
    assert(y =~= (a + y + b).subrange(a.len() as int, (a.len() + y.len()) as int));
}

/// Texts with equal UTF-8 encodings are equal.
proof fn lemma_encoding_injective(c1: Seq<char>, c2: Seq<char>)
    requires
        utf8::encode_utf8(c1) == utf8::encode_utf8(c2),
    ensures
        c1 == c2,
{
    utf8::encode_utf8_decode_utf8(c1);
    utf8::encode_utf8_decode_utf8(c2);
}

/// An entry's preimage is the plain concatenation of the UTF-8 bytes of each field, whole and in
/// order, and it tells every field apart: changing any one field (previous hash, timestamp,
/// environment, payload size, decision or message) while keeping the others changes the preimage.
pub proof fn lemma_entry_preimage_covers_each_field(
    previous: Seq<char>,
    timestamp: Seq<char>,
    environment: Seq<char>,
    payload_size: nat,
    allowed: bool,
    message: Seq<char>,
    other_previous: Seq<char>,
    other_timestamp: Seq<char>,
    other_environment: Seq<char>,
    other_payload_size: nat,
    other_message: Seq<char>,
)
    ensures
        entry_preimage(previous, timestamp, environment, payload_size, allowed, message)
            == utf8::encode_utf8(previous) + utf8::encode_utf8(timestamp) + utf8::encode_utf8(
            environment,
        ) + utf8::encode_utf8(text::decimal_chars(payload_size)) + (if allowed {
            seq![49u8]
        } else {
            seq![48u8]
        }) + utf8::encode_utf8(message),
        previous != other_previous ==> entry_preimage(
            previous,
            timestamp,
            environment,
            payload_size,
            allowed,
            message,
        ) != entry_preimage(other_previous, timestamp, environment, payload_size, allowed, message),
        timestamp != other_timestamp ==> entry_preimage(
            previous,
            timestamp,
            environment,
            payload_size,
            allowed,
            message,
        ) != entry_preimage(previous, other_timestamp, environment, payload_size, allowed, message),
        environment != other_environment ==> entry_preimage(
            previous,
            timestamp,
            environment,
            payload_size,
            allowed,
            message,
        ) != entry_preimage(previous, timestamp, other_environment, payload_size, allowed, message),
        payload_size != other_payload_size ==> entry_preimage(
            previous,
            timestamp,
            environment,
            payload_size,
            allowed,
            message,
        ) != entry_preimage(previous, timestamp, environment, other_payload_size, allowed, message),
        entry_preimage(previous, timestamp, environment, payload_size, true, message)
            != entry_preimage(previous, timestamp, environment, payload_size, false, message),
        message != other_message ==> entry_preimage(
            previous,
            timestamp,
            environment,
            payload_size,
            allowed,
            message,
        ) != entry_preimage(previous, timestamp, environment, payload_size, allowed, other_message),
{
    lemma_flag_bytes(allowed);
    lemma_preimage_previous(previous, timestamp, environment, payload_size, allowed, message, other_previous);
    lemma_preimage_timestamp(previous, timestamp, environment, payload_size, allowed, message, other_timestamp);
    lemma_preimage_environment(previous, timestamp, environment, payload_size, allowed, message, other_environment);
    lemma_preimage_size(previous, timestamp, environment, payload_size, allowed, message, other_payload_size);
    lemma_preimage_flag(previous, timestamp, environment, payload_size, message);
    lemma_preimage_message(previous, timestamp, environment, payload_size, allowed, message, other_message);
}

proof fn lemma_preimage_previous(
    previous: Seq<char>,
    timestamp: Seq<char>,
    environment: Seq<char>,
    payload_size: nat,
    allowed: bool,
    message: Seq<char>,
    other_previous: Seq<char>,
)
    ensures
        previous != other_previous ==> entry_preimage(previous, timestamp, environment, payload_size, allowed, message)
            != entry_preimage(other_previous, timestamp, environment, payload_size, allowed, message),
{
    let ep = utf8::encode_utf8(previous);
    let et = utf8::encode_utf8(timestamp);
    let ee = utf8::encode_utf8(environment);
    let ed = utf8::encode_utf8(text::decimal_chars(payload_size));
    let ef = utf8::encode_utf8(allowed_flag(allowed));
    let em = utf8::encode_utf8(message);
    let empty = Seq::<u8>::empty();
    let this = entry_preimage(previous, timestamp, environment, payload_size, allowed, message);
    let that = entry_preimage(other_previous, timestamp, environment, payload_size, allowed, message);
    if previous != other_previous && this == that {
        assert(this =~= empty + ep + (et + ee + ed + ef + em));
        assert(that =~= empty + utf8::encode_utf8(other_previous) + (et + ee + ed + ef + em));
        lemma_middle_cancels(empty, ep, utf8::encode_utf8(other_previous), et + ee + ed + ef + em);
        lemma_encoding_injective(previous, other_previous);
    }
}

proof fn lemma_preimage_timestamp(
    previous: Seq<char>,
    timestamp: Seq<char>,
    environment: Seq<char>,
    payload_size: nat,
    allowed: bool,
    message: Seq<char>,
    other_timestamp: Seq<char>,
)
    ensures
        timestamp != other_timestamp ==> entry_preimage(previous, timestamp, environment, payload_size, allowed, message)
            != entry_preimage(previous, other_timestamp, environment, payload_size, allowed, message),
{
    let ep = utf8::encode_utf8(previous);
    let et = utf8::encode_utf8(timestamp);
    let ee = utf8::encode_utf8(environment);
    let ed = utf8::encode_utf8(text::decimal_chars(payload_size));
    let ef = utf8::encode_utf8(allowed_flag(allowed));
    let em = utf8::encode_utf8(message);
    let empty = Seq::<u8>::empty();
    let this = entry_preimage(previous, timestamp, environment, payload_size, allowed, message);
    let that = entry_preimage(previous, other_timestamp, environment, payload_size, allowed, message);
    if timestamp != other_timestamp && this == that {
        assert(this =~= ep + et + (ee + ed + ef + em));
        assert(that =~= ep + utf8::encode_utf8(other_timestamp) + (ee + ed + ef + em));
        lemma_middle_cancels(ep, et, utf8::encode_utf8(other_timestamp), ee + ed + ef + em);
        lemma_encoding_injective(timestamp, other_timestamp);
    }
}

proof fn lemma_preimage_environment(
    previous: Seq<char>,
    timestamp: Seq<char>,
    environment: Seq<char>,
    payload_size: nat,
    allowed: bool,
    message: Seq<char>,
    other_environment: Seq<char>,
)
    ensures
        environment != other_environment ==> entry_preimage(previous, timestamp, environment, payload_size, allowed, message)
            != entry_preimage(previous, timestamp, other_environment, payload_size, allowed, message),
{
    let ep = utf8::encode_utf8(previous);
    let et = utf8::encode_utf8(timestamp);
    let ee = utf8::encode_utf8(environment);
    let ed = utf8::encode_utf8(text::decimal_chars(payload_size));
    let ef = utf8::encode_utf8(allowed_flag(allowed));
    let em = utf8::encode_utf8(message);
    let empty = Seq::<u8>::empty();
    let this = entry_preimage(previous, timestamp, environment, payload_size, allowed, message);
    let that = entry_preimage(previous, timestamp, other_environment, payload_size, allowed, message);
    if environment != other_environment && this == that {
        assert(this =~= (ep + et) + ee + (ed + ef + em));
        assert(that =~= (ep + et) + utf8::encode_utf8(other_environment) + (ed + ef + em));
        lemma_middle_cancels(ep + et, ee, utf8::encode_utf8(other_environment), ed + ef + em);
        lemma_encoding_injective(environment, other_environment);
    }
}

proof fn lemma_preimage_size(
    previous: Seq<char>,
    timestamp: Seq<char>,
    environment: Seq<char>,
    payload_size: nat,
    allowed: bool,
    message: Seq<char>,
    other_payload_size: nat,
)
    ensures
        payload_size != other_payload_size ==> entry_preimage(previous, timestamp, environment, payload_size, allowed, message)
            != entry_preimage(previous, timestamp, environment, other_payload_size, allowed, message),
{
    let ep = utf8::encode_utf8(previous);
    let et = utf8::encode_utf8(timestamp);
    let ee = utf8::encode_utf8(environment);
    let ed = utf8::encode_utf8(text::decimal_chars(payload_size));
    let ef = utf8::encode_utf8(allowed_flag(allowed));
    let em = utf8::encode_utf8(message);
    let empty = Seq::<u8>::empty();
    let this = entry_preimage(previous, timestamp, environment, payload_size, allowed, message);
    let that = entry_preimage(previous, timestamp, environment, other_payload_size, allowed, message);
    if payload_size != other_payload_size && this == that {
        assert(this =~= (ep + et + ee) + ed + (ef + em));
        assert(that =~= (ep + et + ee) + utf8::encode_utf8(text::decimal_chars(other_payload_size)) + (ef + em));
        lemma_middle_cancels(ep + et + ee, ed, utf8::encode_utf8(text::decimal_chars(other_payload_size)), ef + em);
        lemma_encoding_injective(text::decimal_chars(payload_size), text::decimal_chars(other_payload_size));
        text::lemma_decimal_injective(payload_size, other_payload_size);
    }
}

proof fn lemma_preimage_message(
    previous: Seq<char>,
    timestamp: Seq<char>,
    environment: Seq<char>,
    payload_size: nat,
    allowed: bool,
    message: Seq<char>,
    other_message: Seq<char>,
)
    ensures
        message != other_message ==> entry_preimage(previous, timestamp, environment, payload_size, allowed, message)
            != entry_preimage(previous, timestamp, environment, payload_size, allowed, other_message),
{
    let ep = utf8::encode_utf8(previous);
    let et = utf8::encode_utf8(timestamp);
    let ee = utf8::encode_utf8(environment);
    let ed = utf8::encode_utf8(text::decimal_chars(payload_size));
    let ef = utf8::encode_utf8(allowed_flag(allowed));
    let em = utf8::encode_utf8(message);
    let empty = Seq::<u8>::empty();
    let this = entry_preimage(previous, timestamp, environment, payload_size, allowed, message);
    let that = entry_preimage(previous, timestamp, environment, payload_size, allowed, other_message);
    if message != other_message && this == that {
        assert(this =~= (ep + et + ee + ed + ef) + em + empty);
        assert(that =~= (ep + et + ee + ed + ef) + utf8::encode_utf8(other_message) + empty);
        lemma_middle_cancels(ep + et + ee + ed + ef, em, utf8::encode_utf8(other_message), empty);
        lemma_encoding_injective(message, other_message);
    }
}

proof fn lemma_preimage_flag(
    previous: Seq<char>,
    timestamp: Seq<char>,
    environment: Seq<char>,
    payload_size: nat,
    message: Seq<char>,
)
    ensures
        entry_preimage(previous, timestamp, environment, payload_size, true, message)
            != entry_preimage(previous, timestamp, environment, payload_size, false, message),
{
    lemma_flag_bytes(true);
    lemma_flag_bytes(false);
    let front = utf8::encode_utf8(previous) + utf8::encode_utf8(timestamp) + utf8::encode_utf8(
        environment,
    ) + utf8::encode_utf8(text::decimal_chars(payload_size));
    let em = utf8::encode_utf8(message);
    let yes = entry_preimage(previous, timestamp, environment, payload_size, true, message);
    let no = entry_preimage(previous, timestamp, environment, payload_size, false, message);
    assert(yes =~= front + seq![49u8] + em);
    assert(no =~= front + seq![48u8] + em);
    if yes == no {
        lemma_middle_cancels(front, seq![49u8], seq![48u8], em);
        assert(seq![49u8][0] != seq![48u8][0]);
    }
}

/// An entry's hash: lower-case hexadecimal SHA-256 of its preimage.
pub open spec fn entry_hash(
    previous: Seq<char>,
    timestamp: Seq<char>,
    environment: Seq<char>,
    payload_size: nat,
    allowed: bool,
    message: Seq<char>,
) -> Seq<char> {
    text::lower_hex(crypto::sha256_digest(entry_preimage(previous, timestamp, environment, payload_size, allowed, message)))
}

/// Whether `signature` (hexadecimal) is the signature of `secret` over the text of `hash`, and
/// one that verifies under `public`.
pub open spec fn hash_signed(secret: Seq<u8>, public: Seq<u8>, hash: Seq<char>, signature: Seq<char>) -> bool {
    let raw = crypto::ed25519_signature(secret, utf8::encode_utf8(hash));
    &&& signature == text::lower_hex(raw)
    &&& raw.len() == 64
    &&& crypto::ed25519_accepts(public, utf8::encode_utf8(hash), raw)
}

/// The signature bytes that hexadecimal text denotes, when it denotes 64 of them.
pub open spec fn signature_bytes(signature: Seq<char>) -> Option<Seq<u8>> {
    match text::hex_decoded(utf8::encode_utf8(signature)) {
        Some(raw) => if raw.len() == 64 {
            Some(raw)
        } else {
            None
        },
        None => None,
    }
}

/// Whether a stored (hash, signature) pair verifies under `public`.
pub open spec fn row_verifies(public: Seq<u8>, hash: Seq<char>, signature: Seq<char>) -> bool {
    match signature_bytes(signature) {
        Some(raw) => crypto::ed25519_accepts(public, utf8::encode_utf8(hash), raw),
        None => false,
    }
}

/// Whether every pair before index `n` verifies under `public`.
pub open spec fn rows_verify_before(public: Seq<u8>, rows: Seq<(String, String)>, n: int) -> bool {
    forall|i: int| 0 <= i < n ==> #[trigger] row_verifies(public, rows[i].0@, rows[i].1@)
}

/// Every pair before `rows.len()` verifies exactly when each pair's signature text decodes to 64
/// bytes that verify over the UTF-8 bytes of its hash.
pub proof fn lemma_rows_verify_means_every_row(public: Seq<u8>, rows: Seq<(String, String)>)
    ensures
        rows_verify_before(public, rows, rows.len() as int) == (forall|i: int|
            0 <= i < rows.len() ==> {
                &&& (#[trigger] text::hex_decoded(utf8::encode_utf8(rows[i].1@))) is Some
                &&& text::hex_decoded(utf8::encode_utf8(rows[i].1@))->0.len() == 64
                &&& crypto::ed25519_accepts(
                    public,
                    utf8::encode_utf8(rows[i].0@),
                    text::hex_decoded(utf8::encode_utf8(rows[i].1@))->0,
                )
            }),
{
    if rows_verify_before(public, rows, rows.len() as int) {
        assert forall|i: int| 0 <= i < rows.len() implies {
            &&& (#[trigger] text::hex_decoded(utf8::encode_utf8(rows[i].1@))) is Some
            &&& text::hex_decoded(utf8::encode_utf8(rows[i].1@))->0.len() == 64
            &&& crypto::ed25519_accepts(
                public,
                utf8::encode_utf8(rows[i].0@),
                text::hex_decoded(utf8::encode_utf8(rows[i].1@))->0,
            )
        } by {
            assert(row_verifies(public, rows[i].0@, rows[i].1@));
        }
    } else {
        let i = choose|i: int|
            0 <= i < rows.len() && !#[trigger] row_verifies(public, rows[i].0@, rows[i].1@);
        assert(text::hex_decoded(utf8::encode_utf8(rows[i].1@)) == text::hex_decoded(
            utf8::encode_utf8(rows[i].1@),
        ));
    }
}

/// Whether the pairs can be checked in order without meeting a signature that is not
/// 64 bytes of hexadecimal text before the first pair that fails to verify.
pub open spec fn rows_checkable(public: Seq<u8>, rows: Seq<(String, String)>) -> bool {
    forall|j: int|
        0 <= j < rows.len() && rows_verify_before(public, rows, j) ==> (#[trigger] signature_bytes(
            rows[j].1@,
        )) is Some
}

/// Makes and checks the entries of the audit chain with the node's signing key.
pub struct AuditLogger {
    secret_key: [u8; 32],
    verifying_key: Vec<u8>,
}

impl AuditLogger {
    #[verifier::type_invariant]
    spec fn keys_match(self) -> bool {
        &&& self.verifying_key@ == crypto::ed25519_public_key(self.secret_key@)
        &&& self.verifying_key@.len() == 32
    }

    /// The secret signing key.
    pub closed spec fn secret(&self) -> Seq<u8> {
        self.secret_key@
    }

    /// The public key entries are checked against.
    pub closed spec fn public_key(&self) -> Seq<u8> {
        self.verifying_key@
    }

    /// A logger that signs with `signing_key` and checks with the public key derived from it.
    pub fn new(signing_key: [u8; 32]) -> (logger: Self)
        ensures
            logger.secret() == signing_key@,
            logger.public_key() == crypto::ed25519_public_key(signing_key@),
    {
        let verifying_key = ed25519_public_key_of(&signing_key);
        AuditLogger { secret_key: signing_key, verifying_key }
    }

    /// Makes the entry that records a decision. `last_hash` is the hash of the newest entry of
    /// the chain, `None` when there is none; `timestamp` is the time of the decision.
    pub fn log_event(
        &self,
        last_hash: Option<String>,
        timestamp: &str,
        environment: &str,
        payload_size: usize,
        allowed: bool,
        message: &str,
    ) -> (entry: AuditEntry)
        ensures
            entry.timestamp@ == timestamp@,
            entry.environment@ == environment@,
            entry.payload_size == payload_size as i64,
            entry.allowed == allowed,
            entry.message@ == message@,
            entry.previous_hash@ == match last_hash {
                Some(h) => h@,
                None => genesis(),
            },
            last_hash is None ==> entry.previous_hash@ == "GENESIS"@,
            entry.hash@ == entry_hash(
                entry.previous_hash@,
                timestamp@,
                environment@,
                payload_size as nat,
                allowed,
                message@,
            ),
            hash_signed(self.secret(), self.public_key(), entry.hash@, entry.signature@),
            entry.hash@ == text::lower_hex(
                crypto::sha256_digest(
                    utf8::encode_utf8(entry.previous_hash@) + utf8::encode_utf8(timestamp@)
                        + utf8::encode_utf8(environment@) + utf8::encode_utf8(
                        text::decimal_chars(payload_size as nat),
                    ) + (if allowed {
                        seq![49u8]
                    } else {
                        seq![48u8]
                    }) + utf8::encode_utf8(message@),
                ),
            ),
            entry.signature@ == text::lower_hex(
                crypto::ed25519_signature(self.secret(), utf8::encode_utf8(entry.hash@)),
            ),
    {
        proof {
            use_type_invariant(self);
            lemma_flag_bytes(allowed);
        }
        let previous_hash = match last_hash {
            Some(h) => h,
            None => "GENESIS".to_owned(),
        };
        let size_text = decimal_string(payload_size as u64);
        let flag = if allowed {
            "1"
        } else {
            "0"
        };
        let mut preimage: Vec<u8> = Vec::new();
        push_bytes(&mut preimage, previous_hash.as_str().as_bytes());
        push_bytes(&mut preimage, timestamp.as_bytes());
        push_bytes(&mut preimage, environment.as_bytes());
        push_bytes(&mut preimage, size_text.as_str().as_bytes());
        push_bytes(&mut preimage, flag.as_bytes());
        push_bytes(&mut preimage, message.as_bytes());
        let digest = sha256(preimage.as_slice());
        let hash = hex_encode(digest.as_slice());
        let raw_signature = ed25519_sign(&self.secret_key, hash.as_str().as_bytes());
        let signature = hex_encode(raw_signature.as_slice());
        AuditEntry {
            timestamp: timestamp.to_owned(),
            environment: environment.to_owned(),
            payload_size: payload_size as i64,
            allowed,
            message: message.to_owned(),
            previous_hash,
            hash,
            signature,
        }
    }

    /// Checks the stored (hash, signature) pairs in order: `true` when every signature verifies
    /// over its hash under this logger's public key. Checking stops at the first that fails.
    pub fn verify_signatures(&self, rows: &Vec<(String, String)>) -> (valid: bool)
        requires
            rows_checkable(self.public_key(), rows@),
        ensures
            valid == rows_verify_before(self.public_key(), rows@, rows@.len() as int),
            valid == (forall|i: int|
                0 <= i < rows@.len() ==> {
                    &&& (#[trigger] text::hex_decoded(utf8::encode_utf8(rows@[i].1@))) is Some
                    &&& text::hex_decoded(utf8::encode_utf8(rows@[i].1@))->0.len() == 64
                    &&& crypto::ed25519_accepts(
                        self.public_key(),
                        utf8::encode_utf8(rows@[i].0@),
                        text::hex_decoded(utf8::encode_utf8(rows@[i].1@))->0,
                    )
                }),
    {
        proof {
            use_type_invariant(self);
            lemma_rows_verify_means_every_row(self.public_key(), rows@);
        }
        let ghost public = self.public_key();
        let n = rows.len();
        let mut i: usize = 0;
        while i < n
            invariant
                n == rows@.len(),
                i <= n,
                public == self.public_key(),
                self.verifying_key@ == public,
                public.len() == 32,
                rows_checkable(public, rows@),
                rows_verify_before(public, rows@, i as int),
            decreases n - i,
        {
            let hash = &rows[i].0;
            let signature = &rows[i].1;
            proof {
                assert(signature_bytes(rows@[i as int].1@) is Some);
            }
            match hex_decode(signature.as_str()) {
                Some(raw) => {
                    if raw.len() != 64 {
                        return false;
                    }
                    if !ed25519_verify(self.verifying_key.as_slice(), hash.as_str().as_bytes(), raw.as_slice()) {
                        assert(!row_verifies(public, rows@[i as int].0@, rows@[i as int].1@));
                        return false;
                    }
                },
                None => {
                    return false;
                },
            }
            i = i + 1;
        }
        true
    }

    /// The newest entry's (hash, id), or the genesis hash and id 0 when the chain is empty.
    pub fn chain_head(&self, latest: Option<(String, i64)>) -> (head: (String, i64))
        ensures
            head.0@ == match latest {
                Some(v) => v.0@,
                None => genesis(),
            },
            latest is None ==> head.0@ == "GENESIS"@,
            head.1 == match latest {
                Some(v) => v.1,
                None => 0,
            },
    {
        match latest {
            Some(v) => v,
            None => ("GENESIS".to_owned(), 0),
        }
    }
}

/// The payload label of an event: its environment and payload size, joined by a colon.
pub open spec fn event_payload_of(environment: Seq<char>, payload_size: nat) -> Seq<char> {
    environment + ":"@ + text::decimal_chars(payload_size)
}

/// The payload label recorded for a validation event.
pub fn event_payload(environment: &str, payload_size: u64) -> (payload: String)
    ensures
        payload@ == event_payload_of(environment@, payload_size as nat),
        payload@ == environment@ + ":"@ + text::decimal_chars(payload_size as nat),
{
    let mut payload = environment.to_owned();
    payload.append(":");
    payload.append(decimal_string(payload_size).as_str());
    payload
}

/// The hash a new entry must link to: the newest entry's hash, or the genesis hash.
pub open spec fn head_hash(entries: Seq<AuditEntry>) -> Seq<char> {
    if entries.len() == 0 {
        genesis()
    } else {
        entries.last().hash@
    }
}

/// Whether each entry links to the one before it, and the first to the genesis hash.
pub open spec fn chain_linked(entries: Seq<AuditEntry>) -> bool {
    forall|i: int|
        0 <= i < entries.len() ==> (#[trigger] entries[i]).previous_hash@ == if i == 0 {
            genesis()
        } else {
            entries[i - 1].hash@
        }
}

/// The (hash, signature) pairs of entries, as the signature check reads them.
pub open spec fn signature_rows(entries: Seq<AuditEntry>) -> Seq<(String, String)> {
    entries.map_values(|e: AuditEntry| (e.hash, e.signature))
}

/// An entry made with the chain's newest hash (absent when the chain is empty) as `last_hash`
/// links to the chain: the chain stays linked, and the entry becomes its head.
pub proof fn lemma_logged_entry_extends_chain(
    entries: Seq<AuditEntry>,
    last_hash: Option<Seq<char>>,
    entry: AuditEntry,
)
    requires
        chain_linked(entries),
        last_hash == if entries.len() == 0 {
            None::<Seq<char>>
        } else {
            Some(entries.last().hash@)
        },
        entry.previous_hash@ == match last_hash {
            Some(h) => h,
            None => genesis(),
        },
    ensures
        chain_linked(entries.push(entry)),
        head_hash(entries.push(entry)) == entry.hash@,
{
    let extended = entries.push(entry);
    assert forall|i: int| 0 <= i < extended.len() implies (#[trigger] extended[i]).previous_hash@
        == if i == 0 {
        genesis()
    } else {
        extended[i - 1].hash@
    } by {
        if i < entries.len() {
            assert(extended[i] == entries[i]);
            if i > 0 {
                assert(extended[i - 1] == entries[i - 1]);
            }
        }
    }
}

/// Entries signed with a key pair all pass the signature check under its public key, and the
/// check can read every one of them.
pub proof fn lemma_signed_entries_verify(secret: Seq<u8>, public: Seq<u8>, entries: Seq<AuditEntry>)
    requires
        forall|i: int|
            0 <= i < entries.len() ==> hash_signed(
                secret,
                public,
                (#[trigger] entries[i]).hash@,
                entries[i].signature@,
            ),
    ensures
        rows_checkable(public, signature_rows(entries)),
        rows_verify_before(public, signature_rows(entries), entries.len() as int),
{
    let rows = signature_rows(entries);
    assert forall|i: int| 0 <= i < entries.len() implies (#[trigger] signature_bytes(rows[i].1@))
        == Some(crypto::ed25519_signature(secret, utf8::encode_utf8(entries[i].hash@)))
        && row_verifies(public, rows[i].0@, rows[i].1@) by {
        assert(hash_signed(secret, public, entries[i].hash@, entries[i].signature@));
        text::lemma_hex_round_trip(crypto::ed25519_signature(secret, utf8::encode_utf8(entries[i].hash@)));
    }
}

} // verus!
