//! The discriminator hash: normalise the name, join it to the namespace,
//! digest, and keep the leading eight bytes.

use vstd::prelude::*;
use vstd::string::*;
use vstd::utf8::encode_utf8;

verus! {

/// The namespace under which instructions are hashed.
pub const GLOBAL_NAMESPACE: &'static str = "global";

/// The namespace under which events are hashed.
pub const EVENT_NAMESPACE: &'static str = "event";

/// The snake-case form that `heck` gives a name.
pub uninterp spec fn snake_case_of(name: Seq<char>) -> Seq<char>;

/// The SHA-256 digest of a byte string.
pub uninterp spec fn sha256_of(data: Seq<u8>) -> Seq<u8>;

/// Calls `heck::ToSnakeCase::to_snake_case` on a string slice.
///
/// Trusted: the returned string is the snake-case form of `name`, and
/// depends on nothing but the characters of `name`.
#[verifier::external_body]
fn to_snake_case(name: &str) -> (out: String)
    ensures
        out@ == snake_case_of(name@),
{
    heck::ToSnakeCase::to_snake_case(name)
}

/// Calls `sha2::Sha256::digest` (the `Digest` trait's one-shot hash).
///
/// Trusted: the 32 bytes returned are the SHA-256 digest of `data`, and
/// depend on nothing but the bytes of `data`.
#[verifier::external_body]
fn sha256(data: &[u8]) -> (digest: [u8; 32])
    ensures
        digest@ == sha256_of(data@),
{
    <sha2::Sha256 as sha2::Digest>::digest(data).into()
}

/// The name as it enters the preimage: events verbatim, everything else in
/// snake case.
pub open spec fn normalized_name_of(name: Seq<char>, event: bool) -> Seq<char> {
    if event {
        name
    } else {
        snake_case_of(name)
    }
}

/// The string that is hashed: namespace, a colon, the normalised name.
pub open spec fn preimage_of(namespace: Seq<char>, normalized: Seq<char>) -> Seq<char> {
    namespace + seq![':'] + normalized
}

/// The leading eight bytes of a digest.
pub open spec fn first_eight(digest: Seq<u8>) -> Seq<u8> {
    Seq::new(8, |i: int| digest[i])
}

/// The discriminator of `name` under `namespace`.
pub open spec fn discriminator_of(namespace: Seq<char>, name: Seq<char>, event: bool) -> Seq<u8> {
    first_eight(sha256_of(encode_utf8(preimage_of(namespace, normalized_name_of(name, event)))))
}

/// Normalises a name for hashing: an event name is returned unchanged, any
/// other name is converted to snake case.
pub fn normalize_name(name: &str, event: bool) -> (out: String)
    ensures
        out@ == normalized_name_of(name@, event),
{
    if event {
        String::from_str(name)
    } else {
        to_snake_case(name)
    }
}

/// Joins a namespace and an already normalised name with a colon.
pub fn build_preimage(namespace: &str, normalized: &str) -> (out: String)
    ensures
        out@ == preimage_of(namespace@, normalized@),
{
    let mut out = String::from_str(namespace);
    out.append(":");
    out.append(normalized);
    proof {
        reveal_strlit(":");
        assert(":"@ =~= seq![':']);
    }
    out
}

/// Keeps the leading eight bytes of a SHA-256 digest.
pub fn truncate_digest(digest: &[u8; 32]) -> (out: [u8; 8])
    ensures
        out@ == first_eight(digest@),
{
    let out: [u8; 8] = [
        digest[0],
        digest[1],
        digest[2],
        digest[3],
        digest[4],
        digest[5],
        digest[6],
        digest[7],
    ];
    assert(out@ =~= first_eight(digest@));
    out
}

/// Computes the discriminator of `name` under `namespace`.
///
/// With `event` set the name is hashed exactly as given; otherwise it is
/// first converted to snake case. The flag alone decides this, whatever the
/// namespace string is.
pub fn get_hash(namespace: &str, name: &str, event: bool) -> (hash: [u8; 8])
    ensures
        hash@ == discriminator_of(namespace@, name@, event),
        hash@.len() == 8,
{
    let normalized = normalize_name(name, event);
    let preimage = build_preimage(namespace, normalized.as_str());
    let digest = sha256(preimage.as_str().as_bytes());
    truncate_digest(&digest)
}

/// The namespace that a request is hashed under: `event` whenever the event
/// flag is set, else the requested one, else `global`.
pub open spec fn effective_namespace_of(requested: Option<Seq<char>>, event: bool) -> Seq<char> {
    if event {
        EVENT_NAMESPACE@
    } else {
        match requested {
            Some(namespace) => namespace,
            None => GLOBAL_NAMESPACE@,
        }
    }
}

/// Chooses the namespace for a request. The event flag overrides any
/// requested namespace; without flag and request the instruction namespace
/// is used.
pub fn effective_namespace<'a>(requested: Option<&'a str>, event: bool) -> (out: &'a str)
    ensures
        out@ == effective_namespace_of(requested.deep_view(), event),
{
    if event {
        EVENT_NAMESPACE
    } else {
        match requested {
            Some(namespace) => namespace,
            None => GLOBAL_NAMESPACE,
        }
    }
}

/// Whether converting `name` to snake case a second time changes nothing.
pub open spec fn snake_case_settles(name: Seq<char>) -> bool {
    snake_case_of(snake_case_of(name)) == snake_case_of(name)
}

/// Tells whether the snake-case form of `name` is itself left unchanged by
/// the conversion. Where it is, the name and its snake-case form share one
/// instruction discriminator under every namespace.
pub fn snake_case_is_settled(name: &str) -> (settled: bool)
    ensures
        settled == snake_case_settles(name@),
        settled ==> forall|namespace: Seq<char>|
            #[trigger] discriminator_of(namespace, name@, false) == discriminator_of(
                namespace,
                snake_case_of(name@),
                false,
            ),
{
    let once = to_snake_case(name);
    let twice = to_snake_case(once.as_str());
    let settled = once == twice;
    proof {
        if settled {
            assert forall|namespace: Seq<char>|
                #[trigger] discriminator_of(namespace, name@, false) == discriminator_of(
                    namespace,
                    snake_case_of(name@),
                    false,
                ) by {
                lemma_snake_case_form_same_discriminator(namespace, name@);
            }
        }
    }
    settled
}

/// Hashing is a function of its three inputs: two results computed from the
/// same namespace, name and flag are the same eight bytes.
pub proof fn lemma_same_inputs_same_discriminator(
    namespace: Seq<char>,
    name: Seq<char>,
    event: bool,
    first: [u8; 8],
    second: [u8; 8],
)
    ensures
        first@ == discriminator_of(namespace, name, event) && second@ == discriminator_of(
            namespace,
            name,
            event,
        ) ==> first == second,
{
    if first@ == discriminator_of(namespace, name, event) && second@ == discriminator_of(
        namespace,
        name,
        event,
    ) {
        assert(first@ =~= second@);
        assert(first =~= second);
    }
}

/// A discriminator is eight bytes long, whatever was hashed.
pub proof fn lemma_discriminator_has_eight_bytes(
    namespace: Seq<char>,
    name: Seq<char>,
    event: bool,
)
    ensures
        discriminator_of(namespace, name, event).len() == 8,
{
}

/// An instruction name and its snake-case form have the same discriminator,
/// provided the snake-case form is stable under a second conversion.
pub proof fn lemma_snake_case_form_same_discriminator(namespace: Seq<char>, name: Seq<char>)
    requires
        snake_case_settles(name),
    ensures
        discriminator_of(namespace, name, false) == discriminator_of(
            namespace,
            snake_case_of(name),
            false,
        ),
{
}

/// An event name enters the preimage exactly as written. It follows that a
/// name which snake-casing leaves unchanged hashes alike with and without
/// the event flag.
pub proof fn lemma_event_name_is_verbatim(namespace: Seq<char>, name: Seq<char>)
    ensures
        normalized_name_of(name, true) == name,
        discriminator_of(namespace, name, true) == first_eight(
            sha256_of(encode_utf8(preimage_of(namespace, name))),
        ),
        snake_case_of(name) == name ==> discriminator_of(namespace, name, false)
            == discriminator_of(namespace, name, true),
{
}

/// Two preimages with colon-free namespaces are equal only if both the
/// namespaces and the normalised names are equal.
pub proof fn lemma_preimage_injective(
    namespace1: Seq<char>,
    normalized1: Seq<char>,
    namespace2: Seq<char>,
    normalized2: Seq<char>,
)
    requires
        !namespace1.contains(':'),
        !namespace2.contains(':'),
        preimage_of(namespace1, normalized1) == preimage_of(namespace2, normalized2),
    ensures
        namespace1 == namespace2,
        normalized1 == normalized2,
{
    let left = preimage_of(namespace1, normalized1);
    let right = preimage_of(namespace2, normalized2);
    let n1 = namespace1.len() as int;
    let n2 = namespace2.len() as int;
    assert(left[n1] == ':');
    assert(right[n2] == ':');
    if n1 < n2 {
        assert(right[n1] == namespace2[n1]);
        assert(namespace2.contains(':'));
    }
    if n2 < n1 {
        assert(left[n2] == namespace1[n2]);
        assert(namespace1.contains(':'));
    }
    assert(n1 == n2);
    assert(left.len() == right.len());
    assert forall|i: int| 0 <= i < n1 implies namespace1[i] == namespace2[i] by {
        assert(left[i] == namespace1[i]);
        assert(right[i] == namespace2[i]);
    }
    assert(namespace1 =~= namespace2);
    assert forall|j: int| 0 <= j < normalized1.len() implies normalized1[j] == normalized2[j] by {
        assert(left[n1 + 1 + j] == normalized1[j]);
        assert(right[n1 + 1 + j] == normalized2[j]);
    }
    assert(normalized1 =~= normalized2);
}

/// Under one namespace, different event names are hashed from different
/// bytes: the digest is taken over input that tells the names apart.
pub proof fn lemma_event_names_hash_distinct_bytes(
    namespace: Seq<char>,
    name1: Seq<char>,
    name2: Seq<char>,
)
    requires
        name1 != name2,
    ensures
        encode_utf8(preimage_of(namespace, normalized_name_of(name1, true))) != encode_utf8(
            preimage_of(namespace, normalized_name_of(name2, true)),
        ),
{
    let left = preimage_of(namespace, name1);
    let right = preimage_of(namespace, name2);
    let n = namespace.len() as int;
    if left == right {
        assert(left.len() == right.len());
        assert forall|j: int| 0 <= j < name1.len() implies name1[j] == name2[j] by {
            assert(left[n + 1 + j] == name1[j]);
            assert(right[n + 1 + j] == name2[j]);
        }
        assert(name1 =~= name2);
    }
    vstd::utf8::encode_utf8_decode_utf8(left);
    vstd::utf8::encode_utf8_decode_utf8(right);
}

/// The instruction namespace and the event namespace never lead to the same
/// hashed bytes, whatever the names are.
pub proof fn lemma_global_and_event_hash_distinct_bytes(
    name1: Seq<char>,
    event1: bool,
    name2: Seq<char>,
    event2: bool,
)
    ensures
        encode_utf8(preimage_of(GLOBAL_NAMESPACE@, normalized_name_of(name1, event1)))
            != encode_utf8(preimage_of(EVENT_NAMESPACE@, normalized_name_of(name2, event2))),
{
    reveal_strlit("global");
    reveal_strlit("event");
    let left = preimage_of(GLOBAL_NAMESPACE@, normalized_name_of(name1, event1));
    let right = preimage_of(EVENT_NAMESPACE@, normalized_name_of(name2, event2));
    assert(left[0] == 'g');
    assert(right[0] == 'e');
    vstd::utf8::encode_utf8_decode_utf8(left);
    vstd::utf8::encode_utf8_decode_utf8(right);
}

} // verus!
