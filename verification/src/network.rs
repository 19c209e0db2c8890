//! The gateway in the network: its hostname and its random seed.
use crate::discovery;
use crate::failure::{Failure, FailureView, Stage};
use crate::text;
use vstd::prelude::*;
use vstd::string::StringExecFns;

verus! {

/// How many bytes a DHCP hostname may have.
pub const DHCP_HOSTNAME_LEN: usize = 32;

/// How many sockets the network stack has.
pub const SOCKETS: usize = 3;

/// Bytes in hexadecimal, two digits each.
pub open spec fn hex(bytes: Seq<u8>) -> Seq<char>
    decreases bytes.len(),
{
    if bytes.len() == 0 {
        seq![]
    } else {
        hex(bytes.drop_last()) + text::zero_padded(text::numeral(bytes.last() as nat, 16), 2)
    }
}

/// The hostname of the gateway with this MAC address.
pub open spec fn spec_hostname(mac: Seq<u8>) -> Seq<char> {
    "freemdu_home_"@ + hex(mac)
}

/// The hostname of the gateway with this MAC address.
pub fn hostname_from_wifi(mac: &[u8; 6]) -> (res: String)
    ensures
        res@ == spec_hostname(mac@),
{
    let mut hostname = String::from_str("freemdu_home_");
    let mut i: usize = 0;
    assert(hostname@ =~= "freemdu_home_"@ + hex(mac@.take(0)));
    while i < 6
        invariant
            i <= 6,
            hostname@ == "freemdu_home_"@ + hex(mac@.take(i as int)),
        decreases 6 - i,
    {
        let ghost before = hostname@;
        text::push_numeral(&mut hostname, mac[i] as u64, 16, 2);
        proof {
            assert(mac@.take(i + 1).drop_last() =~= mac@.take(i as int));
            assert(hostname@ =~= "freemdu_home_"@ + hex(mac@.take(i + 1)));
        }
        i = i + 1;
    }
    assert(mac@.take(6) =~= mac@);
    hostname
}

/// Fits a hostname into a DHCP configuration, and reads it back.
///
/// Sets `embassy_net::DhcpConfig::hostname` through the conversion of a string
/// slice to the fixed-capacity string of that field, and takes from it that the
/// conversion keeps the text, that it fails where the text has more bytes than
/// [`DHCP_HOSTNAME_LEN`] and nowhere else, and that its error is the unit, which
/// prints as `()`.
#[verifier::external_body]
fn fit_dhcp_hostname(hostname: &str) -> (res: Result<String, String>)
    ensures
        match res {
            Ok(fitted) => {
                &&& vstd::utf8::encode_utf8(hostname@).len() <= DHCP_HOSTNAME_LEN
                &&& fitted@ == hostname@
            },
            Err(cause) => {
                &&& vstd::utf8::encode_utf8(hostname@).len() > DHCP_HOSTNAME_LEN
                &&& cause@ == "()"@
            },
        },
{
    let mut cfg = embassy_net::DhcpConfig::default();
    let fitted = hostname.try_into().map_err(|err| format!("{err:?}"))?;
    Ok(cfg.hostname.insert(fitted).as_str().to_owned())
}

/// The hostname to send with DHCP requests.
pub fn dhcp_hostname(hostname: &str) -> (res: Result<String, Failure>)
    ensures
        match res {
            Ok(fitted) => {
                &&& vstd::utf8::encode_utf8(hostname@).len() <= DHCP_HOSTNAME_LEN
                &&& fitted@ == hostname@
            },
            Err(failure) => {
                &&& vstd::utf8::encode_utf8(hostname@).len() > DHCP_HOSTNAME_LEN
                &&& failure@ == (FailureView {
                    stage: Stage::DhcpHostname,
                    cause: "()"@,
                })
            },
        },
{
    match fit_dhcp_hostname(hostname) {
        Ok(fitted) => Ok(fitted),
        Err(cause) => Err(Failure::new(Stage::DhcpHostname, cause)),
    }
}

/// The number whose upper and lower halves are these.
pub open spec fn spec_seed(high: u32, low: u32) -> int {
    high * 0x1_0000_0000 + low
}

/// The seed of the network stack, from two random numbers.
pub fn network_seed(high: u32, low: u32) -> (res: u64)
    ensures
        res == spec_seed(high, low),
{
    proof {
        assert(((high as u64) << 32u64) | (low as u64) == high * 0x1_0000_0000 + low)
            by (bit_vector);
    }
    ((high as u64) << 32u64) | (low as u64)
}

/// A byte in hexadecimal is the digit of its upper half, then that of its lower
/// half.
proof fn lemma_hex_byte(byte: u8)
    ensures
        text::zero_padded(text::numeral(byte as nat, 16), 2) == seq![
            text::digit(byte as int / 16),
            text::digit(byte as int % 16),
        ],
{
    text::lemma_padded_numeral_step(byte as nat, 16, 2);
    let high = text::numeral(byte as nat / 16, 16);
    assert(high == seq![text::digit(byte as int / 16)]);
    assert(text::zero_padded(high, 1) =~= high);
    assert(high.push(text::digit(byte as int % 16)) =~= seq![
        text::digit(byte as int / 16),
        text::digit(byte as int % 16),
    ]);
}

proof fn lemma_hex_shape(bytes: Seq<u8>)
    ensures
        hex(bytes).len() == 2 * bytes.len(),
        forall|i: int|
            #![trigger hex(bytes)[i]]
            0 <= i < hex(bytes).len() ==> 0x30 <= hex(bytes)[i] as int <= 0x66,
    decreases bytes.len(),
{
    if bytes.len() > 0 {
        lemma_hex_shape(bytes.drop_last());
        lemma_hex_byte(bytes.last());
    }
}

proof fn lemma_hex_injective(a: Seq<u8>, b: Seq<u8>)
    requires
        a.len() == b.len(),
        hex(a) == hex(b),
    ensures
        a == b,
    decreases a.len(),
{
    if a.len() > 0 {
        lemma_hex_shape(a.drop_last());
        lemma_hex_shape(b.drop_last());
        lemma_hex_byte(a.last());
        lemma_hex_byte(b.last());
        let n = 2 * (a.len() - 1);
        assert(hex(a.drop_last()) =~= hex(a).take(n));
        assert(hex(b.drop_last()) =~= hex(b).take(n));
        lemma_hex_injective(a.drop_last(), b.drop_last());
        assert(hex(a)[n] == text::digit(a.last() as int / 16));
        assert(hex(b)[n] == text::digit(b.last() as int / 16));
        assert(hex(a)[n + 1] == text::digit(a.last() as int % 16));
        assert(hex(b)[n + 1] == text::digit(b.last() as int % 16));
        assert(a.last() == b.last());
        assert(a =~= a.drop_last().push(a.last()));
        assert(b =~= b.drop_last().push(b.last()));
    } else {
        assert(a =~= b);
    }
}

/// The hostname of a gateway always fits into its DHCP requests.
pub proof fn law_hostname_fits_dhcp(mac: Seq<u8>)
    requires
        mac.len() == 6,
    ensures
        vstd::utf8::encode_utf8(spec_hostname(mac)).len() == 25,
        vstd::utf8::encode_utf8(spec_hostname(mac)).len() <= DHCP_HOSTNAME_LEN,
{
    reveal_strlit("freemdu_home_");
    lemma_hex_shape(mac);
    let name = spec_hostname(mac);
    assert(name.len() == 25);
    assert forall|i: int| 0 <= i < name.len() implies (name[i] as int) < 128 by {
        if i >= 13 {
            assert(name[i] == hex(mac)[i - 13]);
        }
    }
    assert(vstd::utf8::is_ascii_chars(name));
    vstd::utf8::is_ascii_chars_encode_utf8(name);
}

/// Gateways with different MAC addresses have different hostnames.
pub proof fn law_hostnames_differ(a: Seq<u8>, b: Seq<u8>)
    requires
        a.len() == 6,
        b.len() == 6,
        a != b,
    ensures
        spec_hostname(a) != spec_hostname(b),
{
    if spec_hostname(a) == spec_hostname(b) {
        let n = "freemdu_home_"@.len() as int;
        assert(hex(a) =~= spec_hostname(a).skip(n));
        assert(hex(b) =~= spec_hostname(b).skip(n));
        lemma_hex_injective(a, b);
    }
}

/// No two gateways announce the same entity, and no gateway announces two
/// properties, or two actions, as the same entity.
pub proof fn law_entities_differ(mac_a: Seq<u8>, id_a: Seq<char>, mac_b: Seq<u8>, id_b: Seq<char>)
    requires
        mac_a.len() == 6,
        mac_b.len() == 6,
        mac_a != mac_b || id_a != id_b,
    ensures
        discovery::unique_id(spec_hostname(mac_a), id_a) != discovery::unique_id(
            spec_hostname(mac_b),
            id_b,
        ),
{
    let a = discovery::unique_id(spec_hostname(mac_a), id_a);
    let b = discovery::unique_id(spec_hostname(mac_b), id_b);
    if a == b {
        lemma_hex_shape(mac_a);
        lemma_hex_shape(mac_b);
        let n = spec_hostname(mac_a).len() as int;
        assert(spec_hostname(mac_b).len() == n);
        assert(spec_hostname(mac_a) =~= a.take(n));
        assert(spec_hostname(mac_b) =~= b.take(n));
        if mac_a != mac_b {
            law_hostnames_differ(mac_a, mac_b);
        } else {
            discovery::law_identifiers_keep_apart(spec_hostname(mac_a), id_a, id_b);
        }
    }
}

/// Different pairs of random numbers give different seeds.
pub proof fn law_seeds_differ(high_a: u32, low_a: u32, high_b: u32, low_b: u32)
    requires
        high_a != high_b || low_a != low_b,
    ensures
        spec_seed(high_a, low_a) != spec_seed(high_b, low_b),
{
}

proof fn lemma_hex_digits(bytes: Seq<u8>, i: int)
    requires
        0 <= i < bytes.len(),
    ensures
        hex(bytes).len() == 2 * bytes.len(),
        hex(bytes)[2 * i] == text::digit(bytes[i] as int / 16),
        hex(bytes)[2 * i + 1] == text::digit(bytes[i] as int % 16),
    decreases bytes.len(),
{
    lemma_hex_shape(bytes);
    lemma_hex_shape(bytes.drop_last());
    lemma_hex_byte(bytes.last());
    if i < bytes.len() - 1 {
        lemma_hex_digits(bytes.drop_last(), i);
    }
}

/// The hostname shows the MAC address: after a fixed prefix stand two digits for
/// each byte, in order, that read as the byte.
pub proof fn law_hostname_shows_mac(mac: Seq<u8>, i: int)
    requires
        0 <= i < mac.len(),
    ensures
        spec_hostname(mac).len() == "freemdu_home_"@.len() + 2 * mac.len(),
        spec_hostname(mac).take("freemdu_home_"@.len() as int) == "freemdu_home_"@,
        ({
            let at = "freemdu_home_"@.len() + 2 * i;
            let high = spec_hostname(mac)[at];
            let low = spec_hostname(mac)[at + 1];
            &&& text::is_digit(high, 16)
            &&& text::is_digit(low, 16)
            &&& text::digit_value(high) * 16 + text::digit_value(low) == mac[i]
        }),
{
    lemma_hex_digits(mac, i);
    assert(spec_hostname(mac).take("freemdu_home_"@.len() as int) =~= "freemdu_home_"@);
}

/// The upper half of the seed is the first random number, the lower half the
/// second one.
pub proof fn law_seed_halves(high: u32, low: u32)
    ensures
        0 <= spec_seed(high, low) <= u64::MAX,
        spec_seed(high, low) / 0x1_0000_0000 == high,
        spec_seed(high, low) % 0x1_0000_0000 == low,
{
}

} // verus!
