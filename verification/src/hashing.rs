//! FNV-1a, the hash by which the `prometheus` crate finds families and samples.

use vstd::prelude::*;

verus! {

/// The state before the first byte.
pub const FNV_OFFSET: u64 = 0xcbf29ce484222325;

/// The state after one more byte.
pub open spec fn fnv_step(h: u64, byte: u8) -> u64 {
    ((h ^ (byte as u64)) * 0x100000001b3u64) as u64
}

/// The state after the bytes from position `i` on.
pub open spec fn fnv_from(h: u64, bytes: Seq<u8>, i: int) -> u64
    decreases bytes.len() - i,
{
    if i < 0 || i >= bytes.len() {
        h
    } else {
        fnv_from(fnv_step(h, bytes[i]), bytes, i + 1)
    }
}

/// The 64-bit FNV-1a hash of bytes.
pub open spec fn fnv1a(bytes: Seq<u8>) -> u64 {
    fnv_from(FNV_OFFSET, bytes, 0)
}

/// The state after the UTF-8 bytes of a text.
pub open spec fn fnv_text(h: u64, text: Seq<char>) -> u64 {
    fnv_from(h, vstd::utf8::encode_utf8(text), 0)
}

/// Hashing two runs of bytes is hashing one, then the other.
proof fn lemma_fnv_append(h: u64, a: Seq<u8>, b: Seq<u8>, i: int)
    requires
        0 <= i <= a.len(),
    ensures
        fnv_from(h, a + b, i) == fnv_from(fnv_from(h, a, i), b, 0),
    decreases a.len() - i,
{
    if i < a.len() {
        lemma_fnv_append(fnv_step(h, a[i]), a, b, i + 1);
    } else {
        lemma_fnv_shift(h, a, b, 0);
    }
}

/// Bytes hash the same wherever they stand.
proof fn lemma_fnv_shift(h: u64, a: Seq<u8>, b: Seq<u8>, i: int)
    requires
        0 <= i <= b.len(),
    ensures
        fnv_from(h, a + b, a.len() + i) == fnv_from(h, b, i),
    decreases b.len() - i,
{
    if i < b.len() {
        lemma_fnv_shift(fnv_step(h, b[i]), a, b, i + 1);
    }
}

/// Texts put together are encoded one after the other.
proof fn lemma_encode_append(a: Seq<char>, b: Seq<char>)
    ensures
        vstd::utf8::encode_utf8(a + b) == vstd::utf8::encode_utf8(a) + vstd::utf8::encode_utf8(b),
    decreases a.len(),
{
    if a.len() == 0 {
        assert(a + b =~= b);
        assert(vstd::utf8::encode_utf8(a) + vstd::utf8::encode_utf8(b)
            =~= vstd::utf8::encode_utf8(b));
    } else {
        assert((a + b).drop_first() =~= a.drop_first() + b);
        lemma_encode_append(a.drop_first(), b);
        assert(vstd::utf8::encode_utf8(a + b) =~= vstd::utf8::encode_utf8(a)
            + vstd::utf8::encode_utf8(b));
    }
}

/// Hashing two texts put together is hashing one, then the other.
pub proof fn lemma_fnv_text_append(h: u64, a: Seq<char>, b: Seq<char>)
    ensures
        fnv_text(h, a + b) == fnv_text(fnv_text(h, a), b),
{
    lemma_encode_append(a, b);
    lemma_fnv_append(h, vstd::utf8::encode_utf8(a), vstd::utf8::encode_utf8(b), 0);
}

/// Hashing a text and one more byte.
pub proof fn lemma_fnv_text_push(h: u64, text: Seq<char>, byte: u8)
    ensures
        fnv_from(h, vstd::utf8::encode_utf8(text).push(byte), 0) == fnv_step(
            fnv_text(h, text),
            byte,
        ),
{
    let bytes = vstd::utf8::encode_utf8(text);
    assert(bytes.push(byte) =~= bytes + seq![byte]);
    lemma_fnv_append(h, bytes, seq![byte], 0);
    reveal_with_fuel(fnv_from, 2);
}

/// Each byte adds its lowest bit to that of the state.
proof fn lemma_step_parity(h: u64, byte: u8)
    ensures
        fnv_step(h, byte) % 2 == (h % 2 + byte % 2) % 2,
{
    assert(fnv_step(h, byte) % 2 == (h % 2 + (byte as u64) % 2) % 2) by (bit_vector);
}

/// The outcomes `success` and `failure` lead to different states: their bytes
/// hold an odd and an even number of odd ones.
pub proof fn lemma_outcomes_differ(h: u64)
    ensures
        fnv_text(h, "success"@) != fnv_text(h, "failure"@),
{
    reveal_strlit("success");
    reveal_strlit("failure");
    vstd::utf8::is_ascii_chars_encode_utf8("success"@);
    vstd::utf8::is_ascii_chars_encode_utf8("failure"@);
    lemma_parity(h, vstd::utf8::encode_utf8("success"@), 0);
    lemma_parity(h, vstd::utf8::encode_utf8("failure"@), 0);
    reveal_with_fuel(odd_bytes, 8);
}

/// How many bytes from position `i` on are odd.
spec fn odd_bytes(bytes: Seq<u8>, i: int) -> int
    decreases bytes.len() - i,
{
    if i < 0 || i >= bytes.len() {
        0
    } else {
        bytes[i] % 2 + odd_bytes(bytes, i + 1)
    }
}

/// The lowest bit of the state tells whether the number of odd bytes is odd.
proof fn lemma_parity(h: u64, bytes: Seq<u8>, i: int)
    requires
        0 <= i <= bytes.len(),
    ensures
        fnv_from(h, bytes, i) % 2 == (h % 2 + odd_bytes(bytes, i)) % 2,
    decreases bytes.len() - i,
{
    if i < bytes.len() {
        lemma_step_parity(h, bytes[i]);
        lemma_parity(fnv_step(h, bytes[i]), bytes, i + 1);
    }
}

/// The state after `flexlm_`.
proof fn lemma_flexlm()
    ensures
        fnv_text(FNV_OFFSET, "flexlm_"@) == 0x6505c6933f2ca6de,
{
    reveal_strlit("flexlm_");
    vstd::utf8::is_ascii_chars_encode_utf8("flexlm_"@);
    reveal_with_fuel(fnv_from, 8);
    assert(fnv_step(fnv_step(fnv_step(fnv_step(fnv_step(fnv_step(fnv_step(
        0xcbf29ce484222325u64, 102), 108), 101), 120), 108), 109), 95) ==
        0x6505c6933f2ca6deu64) by (bit_vector);
}

/// The state after `flexlm_feature_`.
proof fn lemma_feature()
    ensures
        fnv_text(0x6505c6933f2ca6de, "feature_"@) == 0x0656f3fa595317ed,
{
    reveal_strlit("feature_");
    vstd::utf8::is_ascii_chars_encode_utf8("feature_"@);
    reveal_with_fuel(fnv_from, 9);
    assert(fnv_step(fnv_step(fnv_step(fnv_step(fnv_step(fnv_step(fnv_step(fnv_step(
        0x6505c6933f2ca6deu64, 102), 101), 97), 116), 117), 114), 101), 95) ==
        0x0656f3fa595317edu64) by (bit_vector);
}

/// The state after `flexlm_server_`.
proof fn lemma_server()
    ensures
        fnv_text(0x6505c6933f2ca6de, "server_"@) == 0x0326b0c50726d972,
{
    reveal_strlit("server_");
    vstd::utf8::is_ascii_chars_encode_utf8("server_"@);
    reveal_with_fuel(fnv_from, 8);
    assert(fnv_step(fnv_step(fnv_step(fnv_step(fnv_step(fnv_step(fnv_step(
        0x6505c6933f2ca6deu64, 115), 101), 114), 118), 101), 114), 95) ==
        0x0326b0c50726d972u64) by (bit_vector);
}

/// The state after `flexlm_scrape_`.
proof fn lemma_scrape()
    ensures
        fnv_text(0x6505c6933f2ca6de, "scrape_"@) == 0x05ab60a1048de6c7,
{
    reveal_strlit("scrape_");
    vstd::utf8::is_ascii_chars_encode_utf8("scrape_"@);
    reveal_with_fuel(fnv_from, 8);
    assert(fnv_step(fnv_step(fnv_step(fnv_step(fnv_step(fnv_step(fnv_step(
        0x6505c6933f2ca6deu64, 115), 99), 114), 97), 112), 101), 95) == 0x05ab60a1048de6c7u64)
        by (bit_vector);
}

/// The state after `flexlm_feature_total`.
proof fn lemma_feature_total()
    ensures
        fnv_text(0x0656f3fa595317ed, "total"@) == 0x3eb4beb40878e535,
{
    reveal_strlit("total");
    vstd::utf8::is_ascii_chars_encode_utf8("total"@);
    reveal_with_fuel(fnv_from, 6);
    assert(fnv_step(fnv_step(fnv_step(fnv_step(fnv_step(0x0656f3fa595317edu64, 116), 111),
        116), 97), 108) == 0x3eb4beb40878e535u64) by (bit_vector);
}

/// The state after `flexlm_feature_used`.
proof fn lemma_feature_used()
    ensures
        fnv_text(0x0656f3fa595317ed, "used"@) == 0xaf279e464fc08258,
{
    reveal_strlit("used");
    vstd::utf8::is_ascii_chars_encode_utf8("used"@);
    reveal_with_fuel(fnv_from, 5);
    assert(fnv_step(fnv_step(fnv_step(fnv_step(0x0656f3fa595317edu64, 117), 115), 101), 100) ==
        0xaf279e464fc08258u64) by (bit_vector);
}

/// The state after `flexlm_feature_idle`.
proof fn lemma_feature_idle()
    ensures
        fnv_text(0x0656f3fa595317ed, "idle"@) == 0x6766579f21e80d7b,
{
    reveal_strlit("idle");
    vstd::utf8::is_ascii_chars_encode_utf8("idle"@);
    reveal_with_fuel(fnv_from, 5);
    assert(fnv_step(fnv_step(fnv_step(fnv_step(0x0656f3fa595317edu64, 105), 100), 108), 101) ==
        0x6766579f21e80d7bu64) by (bit_vector);
}

/// The state after `flexlm_feature_users`.
proof fn lemma_feature_users()
    ensures
        fnv_text(0x0656f3fa595317ed, "users"@) == 0x611f1c79845d1a8b,
{
    reveal_strlit("users");
    vstd::utf8::is_ascii_chars_encode_utf8("users"@);
    reveal_with_fuel(fnv_from, 6);
    assert(fnv_step(fnv_step(fnv_step(fnv_step(fnv_step(0x0656f3fa595317edu64, 117), 115),
        101), 114), 115) == 0x611f1c79845d1a8bu64) by (bit_vector);
}

/// The state after `flexlm_server_status`.
proof fn lemma_server_status()
    ensures
        fnv_text(0x0326b0c50726d972, "status"@) == 0x09e6bb67262aff5c,
{
    reveal_strlit("status");
    vstd::utf8::is_ascii_chars_encode_utf8("status"@);
    reveal_with_fuel(fnv_from, 7);
    assert(fnv_step(fnv_step(fnv_step(fnv_step(fnv_step(fnv_step(0x0326b0c50726d972u64, 115),
        116), 97), 116), 117), 115) == 0x09e6bb67262aff5cu64) by (bit_vector);
}

/// The state after `flexlm_server_features_total`.
proof fn lemma_server_features_total()
    ensures
        fnv_text(0x0326b0c50726d972, "features_total"@) == 0x418be04de9995ab0,
{
    reveal_strlit("features_total");
    vstd::utf8::is_ascii_chars_encode_utf8("features_total"@);
    reveal_with_fuel(fnv_from, 15);
    assert(fnv_step(fnv_step(fnv_step(fnv_step(fnv_step(fnv_step(fnv_step(fnv_step(fnv_step(
        fnv_step(fnv_step(fnv_step(fnv_step(fnv_step(0x0326b0c50726d972u64, 102), 101), 97),
        116), 117), 114), 101), 115), 95), 116), 111), 116), 97), 108) ==
        0x418be04de9995ab0u64) by (bit_vector);
}

/// The state after `flexlm_scrape_duration_seconds`.
proof fn lemma_scrape_duration_seconds()
    ensures
        fnv_text(0x05ab60a1048de6c7, "duration_seconds"@) == 0xdc7d68fda3ec1219,
{
    reveal_strlit("duration_seconds");
    vstd::utf8::is_ascii_chars_encode_utf8("duration_seconds"@);
    reveal_with_fuel(fnv_from, 17);
    assert(fnv_step(fnv_step(fnv_step(fnv_step(fnv_step(fnv_step(fnv_step(fnv_step(fnv_step(
        fnv_step(fnv_step(fnv_step(fnv_step(fnv_step(fnv_step(fnv_step(0x05ab60a1048de6c7u64,
        100), 117), 114), 97), 116), 105), 111), 110), 95), 115), 101), 99), 111), 110), 100),
        115) == 0xdc7d68fda3ec1219u64) by (bit_vector);
}

/// The state after `flexlm_scrape_total`.
proof fn lemma_scrape_total()
    ensures
        fnv_text(0x05ab60a1048de6c7, "total"@) == 0xd50b68e4cf3a261f,
{
    reveal_strlit("total");
    vstd::utf8::is_ascii_chars_encode_utf8("total"@);
    reveal_with_fuel(fnv_from, 6);
    assert(fnv_step(fnv_step(fnv_step(fnv_step(fnv_step(0x05ab60a1048de6c7u64, 116), 111),
        116), 97), 108) == 0xd50b68e4cf3a261fu64) by (bit_vector);
}

/// The identifier of a name that three words make up: the state after them, and
/// the byte 0xff.
proof fn lemma_three_words(name: Seq<char>, a: Seq<char>, b: Seq<char>, c: Seq<char>)
    requires
        name == a + b + c,
    ensures
        fnv1a(vstd::utf8::encode_utf8(name).push(0xff)) == fnv_step(
            fnv_text(fnv_text(fnv_text(FNV_OFFSET, a), b), c),
            0xff,
        ),
{
    lemma_fnv_text_push(FNV_OFFSET, name, 0xff);
    lemma_fnv_text_append(FNV_OFFSET, a + b, c);
    lemma_fnv_text_append(FNV_OFFSET, a, b);
}

/// The hashes of the names of the metric families, each with the byte 0xff behind
/// it.
pub proof fn lemma_family_hashes()
    ensures
        fnv1a(vstd::utf8::encode_utf8("flexlm_feature_total"@).push(0xff)) == 0x0605d5ea656e763e,
        fnv1a(vstd::utf8::encode_utf8("flexlm_feature_used"@).push(0xff)) == 0x60d49879841e01c5,
        fnv1a(vstd::utf8::encode_utf8("flexlm_feature_idle"@).push(0xff)) == 0x9af467669d4ef74c,
        fnv1a(vstd::utf8::encode_utf8("flexlm_feature_users"@).push(0xff)) == 0x64f7d67bea33f31c,
        fnv1a(vstd::utf8::encode_utf8("flexlm_server_status"@).push(0xff)) == 0xfe101345db1061f9,
        fnv1a(vstd::utf8::encode_utf8("flexlm_server_features_total"@).push(0xff)) == 0xfa087363ef94743d,
        fnv1a(vstd::utf8::encode_utf8("flexlm_scrape_duration_seconds"@).push(0xff)) == 0x952c4cfd8a241cd2,
        fnv1a(vstd::utf8::encode_utf8("flexlm_scrape_total"@).push(0xff)) == 0x3c8a1ccc1fd00ea0,
{
    lemma_flexlm();
    lemma_feature();
    lemma_server();
    lemma_scrape();
    reveal_strlit("flexlm_");
    reveal_strlit("feature_");
    reveal_strlit("server_");
    reveal_strlit("scrape_");
    reveal_strlit("duration_seconds");
    reveal_strlit("features_total");
    reveal_strlit("idle");
    reveal_strlit("status");
    reveal_strlit("total");
    reveal_strlit("used");
    reveal_strlit("users");
    reveal_strlit("flexlm_feature_total");
    reveal_strlit("flexlm_feature_used");
    reveal_strlit("flexlm_feature_idle");
    reveal_strlit("flexlm_feature_users");
    reveal_strlit("flexlm_server_status");
    reveal_strlit("flexlm_server_features_total");
    reveal_strlit("flexlm_scrape_duration_seconds");
    reveal_strlit("flexlm_scrape_total");
    assert("flexlm_feature_total"@ =~= "flexlm_"@ + "feature_"@ + "total"@);
    lemma_three_words("flexlm_feature_total"@, "flexlm_"@, "feature_"@, "total"@);
    lemma_feature_total();
    assert(fnv_step(0x3eb4beb40878e535u64, 0xff) == 0x0605d5ea656e763eu64) by (bit_vector);
    assert("flexlm_feature_used"@ =~= "flexlm_"@ + "feature_"@ + "used"@);
    lemma_three_words("flexlm_feature_used"@, "flexlm_"@, "feature_"@, "used"@);
    lemma_feature_used();
    assert(fnv_step(0xaf279e464fc08258u64, 0xff) == 0x60d49879841e01c5u64) by (bit_vector);
    assert("flexlm_feature_idle"@ =~= "flexlm_"@ + "feature_"@ + "idle"@);
    lemma_three_words("flexlm_feature_idle"@, "flexlm_"@, "feature_"@, "idle"@);
    lemma_feature_idle();
    assert(fnv_step(0x6766579f21e80d7bu64, 0xff) == 0x9af467669d4ef74cu64) by (bit_vector);
    assert("flexlm_feature_users"@ =~= "flexlm_"@ + "feature_"@ + "users"@);
    lemma_three_words("flexlm_feature_users"@, "flexlm_"@, "feature_"@, "users"@);
    lemma_feature_users();
    assert(fnv_step(0x611f1c79845d1a8bu64, 0xff) == 0x64f7d67bea33f31cu64) by (bit_vector);
    assert("flexlm_server_status"@ =~= "flexlm_"@ + "server_"@ + "status"@);
    lemma_three_words("flexlm_server_status"@, "flexlm_"@, "server_"@, "status"@);
    lemma_server_status();
    assert(fnv_step(0x09e6bb67262aff5cu64, 0xff) == 0xfe101345db1061f9u64) by (bit_vector);
    assert("flexlm_server_features_total"@ =~= "flexlm_"@ + "server_"@ + "features_total"@);
    lemma_three_words("flexlm_server_features_total"@, "flexlm_"@, "server_"@, "features_total"@);
    lemma_server_features_total();
    assert(fnv_step(0x418be04de9995ab0u64, 0xff) == 0xfa087363ef94743du64) by (bit_vector);
    assert("flexlm_scrape_duration_seconds"@ =~= "flexlm_"@ + "scrape_"@ + "duration_seconds"@);
    lemma_three_words("flexlm_scrape_duration_seconds"@, "flexlm_"@, "scrape_"@, "duration_seconds"@);
    lemma_scrape_duration_seconds();
    assert(fnv_step(0xdc7d68fda3ec1219u64, 0xff) == 0x952c4cfd8a241cd2u64) by (bit_vector);
    assert("flexlm_scrape_total"@ =~= "flexlm_"@ + "scrape_"@ + "total"@);
    lemma_three_words("flexlm_scrape_total"@, "flexlm_"@, "scrape_"@, "total"@);
    lemma_scrape_total();
    assert(fnv_step(0xd50b68e4cf3a261fu64, 0xff) == 0x3c8a1ccc1fd00ea0u64) by (bit_vector);
}

} // verus!
