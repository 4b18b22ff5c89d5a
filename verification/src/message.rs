//! The message builder: for each operation, the exact execute payload the
//! contract expects — field names and casing pinned character by character —
//! and the funds to attach alongside it.
//!
//! Bond and delegate operations attach their amount as funds; delegation
//! deliberately conveys the amount only through funds, never in the payload
//! body. Track and withdraw operations embed their amount in the body and
//! attach nothing.

use vstd::prelude::*;

use crate::amount::clone_amount;
use crate::amount::Amount;
use crate::digits::append_dec;
use crate::digits::append_str;
use crate::digits::dec_digits;
use crate::digits::digit_char;
use crate::operation::Gateway;
use crate::operation::MixNode;
use crate::operation::Operation;

verus! {

/// Hex digit character (lower case) for a value below sixteen.
pub open spec fn hex_char(d: nat) -> char {
    if d < 10 {
        digit_char(d)
    } else if d == 10 {
        'a'
    } else if d == 11 {
        'b'
    } else if d == 12 {
        'c'
    } else if d == 13 {
        'd'
    } else if d == 14 {
        'e'
    } else {
        'f'
    }
}

/// The JSON escape of one character: quotes and backslashes get a
/// backslash, control characters a `\u00XX` escape, everything else stands
/// for itself.
pub open spec fn esc_char(c: char) -> Seq<char> {
    if c == '"' {
        seq!['\\', '"']
    } else if c == '\\' {
        seq!['\\', '\\']
    } else if (c as u32) < 32 {
        seq!['\\', 'u', '0', '0', hex_char((c as u32 / 16) as nat), hex_char(
            (c as u32 % 16) as nat,
        )]
    } else {
        seq![c]
    }
}

/// A character sequence with every character JSON-escaped.
pub open spec fn json_escaped(s: Seq<char>) -> Seq<char>
    decreases s.len(),
{
    if s.len() == 0 {
        Seq::empty()
    } else {
        json_escaped(s.drop_last()) + esc_char(s.last())
    }
}

/// A JSON string literal: the escaped characters between double quotes.
pub open spec fn json_string(s: Seq<char>) -> Seq<char> {
    seq!['"'] + json_escaped(s) + seq!['"']
}

/// The JSON object for a coin: denomination, then the magnitude as a
/// string-encoded integer.
pub open spec fn coin_json(value: u128, denom: Seq<char>) -> Seq<char> {
    "{\"denom\":"@ + json_string(denom) + ",\"amount\":\""@ + dec_digits(value as nat) + "\"}"@
}

/// An optional timestamp: the number itself, or `null`.
pub open spec fn opt_u64_json(o: Option<u64>) -> Seq<char> {
    match o {
        Some(t) => dec_digits(t as nat),
        None => "null"@,
    }
}

/// The JSON object for a mix node descriptor.
pub open spec fn mixnode_json(m: MixNode) -> Seq<char> {
    "{\"host\":"@ + json_string(m.host@) + ",\"mix_port\":"@ + dec_digits(m.mix_port as nat)
        + ",\"verloc_port\":"@ + dec_digits(m.verloc_port as nat) + ",\"http_api_port\":"@
        + dec_digits(m.http_api_port as nat) + ",\"sphinx_key\":"@ + json_string(m.sphinx_key@)
        + ",\"identity_key\":"@ + json_string(m.identity_key@) + ",\"version\":"@ + json_string(
        m.version@,
    ) + ",\"profit_margin_percent\":"@ + dec_digits(m.profit_margin_percent as nat) + "}"@
}

/// The JSON object for a gateway descriptor.
pub open spec fn gateway_json(g: Gateway) -> Seq<char> {
    "{\"host\":"@ + json_string(g.host@) + ",\"mix_port\":"@ + dec_digits(g.mix_port as nat)
        + ",\"clients_port\":"@ + dec_digits(g.clients_port as nat) + ",\"location\":"@
        + json_string(g.location@) + ",\"sphinx_key\":"@ + json_string(g.sphinx_key@)
        + ",\"identity_key\":"@ + json_string(g.identity_key@) + ",\"version\":"@ + json_string(
        g.version@,
    ) + "}"@
}

/// The execute payload of each operation, with the exact field names and
/// casing the contract expects.
pub open spec fn payload_json(op: Operation) -> Seq<char> {
    match op {
        Operation::BondGateway { gateway, pledge: _, owner_signature } => {
            "{\"bond_gateway\":{\"gateway\":"@ + gateway_json(gateway) + ",\"owner_signature\":"@
                + json_string(owner_signature@) + "}}"@
        },
        Operation::UnbondGateway => "{\"unbond_gateway\":{}}"@,
        Operation::TrackUnbondGateway { owner, amount } => {
            "{\"track_unbond_gateway\":{\"owner\":"@ + json_string(owner@) + ",\"amount\":"@
                + coin_json(amount.value, amount.denom@) + "}}"@
        },
        Operation::BondMixnode { mix_node, pledge: _, owner_signature } => {
            "{\"bond_mixnode\":{\"mix_node\":"@ + mixnode_json(mix_node) + ",\"owner_signature\":"@
                + json_string(owner_signature@) + "}}"@
        },
        Operation::UnbondMixnode => "{\"unbond_mixnode\":{}}"@,
        Operation::TrackUnbondMixnode { owner, amount } => {
            "{\"track_unbond_mixnode\":{\"owner\":"@ + json_string(owner@) + ",\"amount\":"@
                + coin_json(amount.value, amount.denom@) + "}}"@
        },
        Operation::WithdrawVestedCoins { amount } => {
            "{\"withdraw_vested_coins\":{\"amount\":"@ + coin_json(amount.value, amount.denom@)
                + "}}"@
        },
        Operation::TrackUndelegation { owner, mix_identity, amount } => {
            "{\"track_undelegation\":{\"owner\":"@ + json_string(owner@) + ",\"mix_identity\":"@
                + json_string(mix_identity@) + ",\"amount\":"@ + coin_json(
                amount.value,
                amount.denom@,
            ) + "}}"@
        },
        Operation::DelegateToMixnode { mix_identity, amount: _ } => {
            "{\"delegate_to_mixnode\":{\"mix_identity\":"@ + json_string(mix_identity@) + "}}"@
        },
        Operation::UndelegateFromMixnode { mix_identity } => {
            "{\"undelegate_from_mixnode\":{\"mix_identity\":"@ + json_string(mix_identity@)
                + "}}"@
        },
        Operation::CreatePeriodicVestingAccount { address, start_time, amount: _ } => {
            "{\"create_account\":{\"address\":"@ + json_string(address@) + ",\"start_time\":"@
                + opt_u64_json(start_time) + "}}"@
        },
    }
}

/// The funds attached alongside each operation's payload: the pledge for
/// bonding, the delegated amount for delegation, the initial funding for a
/// new vesting account; nothing for every other operation.
pub open spec fn spec_funds(op: Operation) -> Seq<Amount> {
    match op {
        Operation::BondGateway { gateway: _, pledge, owner_signature: _ } => seq![pledge],
        Operation::BondMixnode { mix_node: _, pledge, owner_signature: _ } => seq![pledge],
        Operation::DelegateToMixnode { mix_identity: _, amount } => seq![amount],
        Operation::CreatePeriodicVestingAccount { address: _, start_time: _, amount } => seq![
            amount,
        ],
        _ => Seq::empty(),
    }
}

/// Two amount lists agree in magnitude and denomination, element by
/// element.
pub open spec fn amounts_eq(a: Seq<Amount>, b: Seq<Amount>) -> bool {
    a.len() == b.len() && (forall|i: int|
        0 <= i < a.len() ==> (#[trigger] a[i]).value == b[i].value && a[i].denom@ == b[i].denom@)
}

/// Relies on `String::push`: appends exactly the given character.
#[verifier::external_body]
fn push_char(out: &mut String, c: char)
    ensures
        final(out)@ == old(out)@ + seq![c],
{
    out.push(c);
}

/// Appends one lower-case hex digit character to `out`.
fn append_hex_digit(out: &mut String, d: u8)
    requires
        d < 16,
    ensures
        final(out)@ == old(out)@ + seq![hex_char(d as nat)],
{
    proof {
        reveal_strlit("0");
        reveal_strlit("1");
        reveal_strlit("2");
        reveal_strlit("3");
        reveal_strlit("4");
        reveal_strlit("5");
        reveal_strlit("6");
        reveal_strlit("7");
        reveal_strlit("8");
        reveal_strlit("9");
        reveal_strlit("a");
        reveal_strlit("b");
        reveal_strlit("c");
        reveal_strlit("d");
        reveal_strlit("e");
        reveal_strlit("f");
    }
    match d {
        0 => append_str(out, "0"),
        1 => append_str(out, "1"),
        2 => append_str(out, "2"),
        3 => append_str(out, "3"),
        4 => append_str(out, "4"),
        5 => append_str(out, "5"),
        6 => append_str(out, "6"),
        7 => append_str(out, "7"),
        8 => append_str(out, "8"),
        9 => append_str(out, "9"),
        10 => append_str(out, "a"),
        11 => append_str(out, "b"),
        12 => append_str(out, "c"),
        13 => append_str(out, "d"),
        14 => append_str(out, "e"),
        _ => append_str(out, "f"),
    }
    proof {
        assert(out@ =~= old(out)@ + seq![hex_char(d as nat)]);
    }
}

/// Appends the JSON escape of every character of `s` to `out`.
fn append_json_escaped(out: &mut String, s: &str)
    ensures
        final(out)@ == old(out)@ + json_escaped(s@),
{
    let n = s.unicode_len();
    let mut i: usize = 0;
    while i < n
        invariant
            0 <= i <= n,
            n == s@.len(),
            out@ == old(out)@ + json_escaped(s@.take(i as int)),
        decreases n - i,
    {
        let c = s.get_char(i);
        proof {
            assert(s@.take(i as int + 1).drop_last() =~= s@.take(i as int));
            assert(s@.take(i as int + 1).last() == s@[i as int]);
        }
        if c == '"' {
            append_str(out, "\\\"");
            proof {
                reveal_strlit("\\\"");
                assert("\\\""@ =~= esc_char(c));
            }
        } else if c == '\\' {
            append_str(out, "\\\\");
            proof {
                reveal_strlit("\\\\");
                assert("\\\\"@ =~= esc_char(c));
            }
        } else if (c as u32) < 32 {
            append_str(out, "\\u00");
            let hi = ((c as u32) / 16) as u8;
            let lo = ((c as u32) % 16) as u8;
            append_hex_digit(out, hi);
            append_hex_digit(out, lo);
            proof {
                reveal_strlit("\\u00");
                assert("\\u00"@ + seq![hex_char(((c as u32) / 16) as nat)] + seq![hex_char(
                    ((c as u32) % 16) as nat,
                )] =~= esc_char(c));
            }
        } else {
            push_char(out, c);
            proof {
                assert(seq![c] =~= esc_char(c));
            }
        }
        proof {
            assert(out@ =~= old(out)@ + json_escaped(s@.take(i as int + 1)));
        }
        i = i + 1;
    }
    proof {
        assert(s@.take(n as int) =~= s@);
    }
}

/// Appends the JSON string literal for `s` to `out`.
fn append_json_string(out: &mut String, s: &str)
    ensures
        final(out)@ == old(out)@ + json_string(s@),
{
    append_str(out, "\"");
    append_json_escaped(out, s);
    append_str(out, "\"");
    proof {
        reveal_strlit("\"");
        assert("\""@ =~= seq!['"']);
        assert(out@ =~= old(out)@ + json_string(s@));
    }
}

/// Appends the coin object for an amount to `out`.
fn append_coin_json(out: &mut String, a: &Amount)
    ensures
        final(out)@ == old(out)@ + coin_json(a.value, a.denom@),
{
    append_str(out, "{\"denom\":");
    append_json_string(out, a.denom.as_str());
    append_str(out, ",\"amount\":\"");
    append_dec(out, a.value);
    append_str(out, "\"}");
    proof {
        assert(out@ =~= old(out)@ + coin_json(a.value, a.denom@));
    }
}

/// Appends a number or `null` for an optional timestamp to `out`.
fn append_opt_u64(out: &mut String, o: &Option<u64>)
    ensures
        final(out)@ == old(out)@ + opt_u64_json(*o),
{
    match o {
        Some(t) => {
            append_dec(out, *t as u128);
        },
        None => {
            append_str(out, "null");
        },
    }
}

/// Appends the descriptor object for a mix node to `out`.
fn append_mixnode_json(out: &mut String, m: &MixNode)
    ensures
        final(out)@ == old(out)@ + mixnode_json(*m),
{
    append_str(out, "{\"host\":");
    append_json_string(out, m.host.as_str());
    append_str(out, ",\"mix_port\":");
    append_dec(out, m.mix_port as u128);
    append_str(out, ",\"verloc_port\":");
    append_dec(out, m.verloc_port as u128);
    append_str(out, ",\"http_api_port\":");
    append_dec(out, m.http_api_port as u128);
    append_str(out, ",\"sphinx_key\":");
    append_json_string(out, m.sphinx_key.as_str());
    append_str(out, ",\"identity_key\":");
    append_json_string(out, m.identity_key.as_str());
    append_str(out, ",\"version\":");
    append_json_string(out, m.version.as_str());
    append_str(out, ",\"profit_margin_percent\":");
    append_dec(out, m.profit_margin_percent as u128);
    append_str(out, "}");
    proof {
        assert(out@ =~= old(out)@ + mixnode_json(*m));
    }
}

/// Appends the descriptor object for a gateway to `out`.
fn append_gateway_json(out: &mut String, g: &Gateway)
    ensures
        final(out)@ == old(out)@ + gateway_json(*g),
{
    append_str(out, "{\"host\":");
    append_json_string(out, g.host.as_str());
    append_str(out, ",\"mix_port\":");
    append_dec(out, g.mix_port as u128);
    append_str(out, ",\"clients_port\":");
    append_dec(out, g.clients_port as u128);
    append_str(out, ",\"location\":");
    append_json_string(out, g.location.as_str());
    append_str(out, ",\"sphinx_key\":");
    append_json_string(out, g.sphinx_key.as_str());
    append_str(out, ",\"identity_key\":");
    append_json_string(out, g.identity_key.as_str());
    append_str(out, ",\"version\":");
    append_json_string(out, g.version.as_str());
    append_str(out, "}");
    proof {
        assert(out@ =~= old(out)@ + gateway_json(*g));
    }
}

/// Builds the execute payload and the funds to attach for an operation: a
/// pure function of the operation, one case per variant.
pub fn build(op: &Operation) -> (r: (String, Vec<Amount>))
    ensures
        r.0@ == payload_json(*op),
        amounts_eq(r.1@, spec_funds(*op)),
{
    let mut out = String::new();
    let mut funds: Vec<Amount> = Vec::new();
    match op {
        Operation::BondGateway { gateway, pledge, owner_signature } => {
            append_str(&mut out, "{\"bond_gateway\":{\"gateway\":");
            append_gateway_json(&mut out, gateway);
            append_str(&mut out, ",\"owner_signature\":");
            append_json_string(&mut out, owner_signature.as_str());
            append_str(&mut out, "}}");
            funds.push(clone_amount(pledge));
        },
        Operation::UnbondGateway => {
            append_str(&mut out, "{\"unbond_gateway\":{}}");
        },
        Operation::TrackUnbondGateway { owner, amount } => {
            append_str(&mut out, "{\"track_unbond_gateway\":{\"owner\":");
            append_json_string(&mut out, owner.as_str());
            append_str(&mut out, ",\"amount\":");
            append_coin_json(&mut out, amount);
            append_str(&mut out, "}}");
        },
        Operation::BondMixnode { mix_node, pledge, owner_signature } => {
            append_str(&mut out, "{\"bond_mixnode\":{\"mix_node\":");
            append_mixnode_json(&mut out, mix_node);
            append_str(&mut out, ",\"owner_signature\":");
            append_json_string(&mut out, owner_signature.as_str());
            append_str(&mut out, "}}");
            funds.push(clone_amount(pledge));
        },
        Operation::UnbondMixnode => {
            append_str(&mut out, "{\"unbond_mixnode\":{}}");
        },
        Operation::TrackUnbondMixnode { owner, amount } => {
            append_str(&mut out, "{\"track_unbond_mixnode\":{\"owner\":");
            append_json_string(&mut out, owner.as_str());
            append_str(&mut out, ",\"amount\":");
            append_coin_json(&mut out, amount);
            append_str(&mut out, "}}");
        },
        Operation::WithdrawVestedCoins { amount } => {
            append_str(&mut out, "{\"withdraw_vested_coins\":{\"amount\":");
            append_coin_json(&mut out, amount);
            append_str(&mut out, "}}");
        },
        Operation::TrackUndelegation { owner, mix_identity, amount } => {
            append_str(&mut out, "{\"track_undelegation\":{\"owner\":");
            append_json_string(&mut out, owner.as_str());
            append_str(&mut out, ",\"mix_identity\":");
            append_json_string(&mut out, mix_identity.as_str());
            append_str(&mut out, ",\"amount\":");
            append_coin_json(&mut out, amount);
            append_str(&mut out, "}}");
        },
        Operation::DelegateToMixnode { mix_identity, amount } => {
            append_str(&mut out, "{\"delegate_to_mixnode\":{\"mix_identity\":");
            append_json_string(&mut out, mix_identity.as_str());
            append_str(&mut out, "}}");
            funds.push(clone_amount(amount));
        },
        Operation::UndelegateFromMixnode { mix_identity } => {
            append_str(&mut out, "{\"undelegate_from_mixnode\":{\"mix_identity\":");
            append_json_string(&mut out, mix_identity.as_str());
            append_str(&mut out, "}}");
        },
        Operation::CreatePeriodicVestingAccount { address, start_time, amount } => {
            append_str(&mut out, "{\"create_account\":{\"address\":");
            append_json_string(&mut out, address.as_str());
            append_str(&mut out, ",\"start_time\":");
            append_opt_u64(&mut out, start_time);
            append_str(&mut out, "}}");
            funds.push(clone_amount(amount));
        },
    }
    proof {
        assert(out@ =~= payload_json(*op));
    }
    (out, funds)
}

/// Funds-attachment asymmetry, delegate side: the payload embeds only the
/// target identity — it is the same for any two amounts — while the attached
/// funds are exactly the delegated amount.
pub proof fn lemma_delegate_funds_asymmetry(mix_identity: String, amount: Amount, other: Amount)
    ensures
        spec_funds(Operation::DelegateToMixnode { mix_identity, amount }) == seq![amount],
        payload_json(Operation::DelegateToMixnode { mix_identity, amount }) == payload_json(
            Operation::DelegateToMixnode { mix_identity, amount: other },
        ),
{
}

/// Funds-attachment asymmetry, undelegate side: no funds are attached and
/// the payload embeds only the target identity.
pub proof fn lemma_undelegate_attaches_nothing(mix_identity: String)
    ensures
        spec_funds(Operation::UndelegateFromMixnode { mix_identity }).len() == 0,
        payload_json(Operation::UndelegateFromMixnode { mix_identity })
            == "{\"undelegate_from_mixnode\":{\"mix_identity\":"@ + json_string(mix_identity@)
            + "}}"@,
{
}

} // verus!
