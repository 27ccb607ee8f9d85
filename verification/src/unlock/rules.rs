//! The pure on-chain rules the unlockers decide by: the anyone-can-pay
//! pairing rule and the cheque claim/withdraw rule.

use vstd::prelude::*;

use crate::interop::parse_witness_args;
use crate::interop::wa_parse;
use crate::types::opt_bytes_eq;

verus! {

// ---------------------------------------------------------------------
// Anyone-can-pay
// ---------------------------------------------------------------------

/// One side of an anyone-can-pay pairing: the optional type-script hash
/// and the two asset amounts of a cell.
pub struct AcpWallet {
    pub type_hash: Option<Vec<u8>>,
    pub ckb_amount: u64,
    pub udt_amount: u128,
}

/// Mathematical view of an [`AcpWallet`].
pub struct AcpWalletV {
    pub type_hash: Option<Seq<u8>>,
    pub ckb_amount: u64,
    pub udt_amount: u128,
}

impl View for AcpWallet {
    type V = AcpWalletV;

    open spec fn view(&self) -> AcpWalletV {
        AcpWalletV {
            type_hash: match self.type_hash {
                Some(ref h) => Some(h@),
                None => None,
            },
            ckb_amount: self.ckb_amount,
            udt_amount: self.udt_amount,
        }
    }
}

/// The amount rule for one matched input/output pair: at least one asset
/// grows by its minimum, and an asset that does not meet its minimum is
/// unchanged.
pub open spec fn acp_amounts_ok(w: AcpWalletV, o: AcpWalletV, min_ckb: u64, min_udt: u128) -> bool {
    let meet_ckb = o.ckb_amount >= w.ckb_amount + min_ckb;
    let meet_udt = o.udt_amount >= w.udt_amount + min_udt;
    &&& (meet_ckb || meet_udt)
    &&& (meet_ckb || o.ckb_amount == w.ckb_amount)
    &&& (meet_udt || o.udt_amount == w.udt_amount)
}

/// The anyone-can-pay pairing rule over the wallets of a group's inputs
/// and outputs: type hashes are distinct on each side, each output pairs
/// with exactly one input and each input with exactly one output, and
/// every pair satisfies the amount rule.
pub open spec fn acp_pairing_ok(
    ws: Seq<AcpWalletV>,
    os: Seq<AcpWalletV>,
    min_ckb: u64,
    min_udt: u128,
) -> bool {
    &&& (forall|i: int, j: int|
        0 <= i < j < ws.len() ==> (#[trigger] ws[i]).type_hash != (#[trigger] ws[j]).type_hash)
    &&& (forall|k: int, l: int|
        0 <= k < l < os.len() ==> (#[trigger] os[k]).type_hash != (#[trigger] os[l]).type_hash)
    &&& (forall|k: int|
        0 <= k < os.len() ==> exists|i: int|
            0 <= i < ws.len() && (#[trigger] ws[i]).type_hash == (#[trigger] os[k]).type_hash)
    &&& (forall|i: int|
        0 <= i < ws.len() ==> exists|k: int|
            0 <= k < os.len() && (#[trigger] os[k]).type_hash == (#[trigger] ws[i]).type_hash)
    &&& (forall|i: int, k: int|
        0 <= i < ws.len() && 0 <= k < os.len() && (#[trigger] ws[i]).type_hash == (
        #[trigger] os[k]).type_hash ==> acp_amounts_ok(ws[i], os[k], min_ckb, min_udt))
}

/// How many wallets in `s` carry the type hash `th`.
pub open spec fn count_matching(s: Seq<AcpWalletV>, th: Option<Seq<u8>>) -> int
    decreases s.len(),
{
    if s.len() == 0 {
        0
    } else {
        count_matching(s.drop_last(), th) + if s.last().type_hash == th {
            1int
        } else {
            0int
        }
    }
}

proof fn lemma_count_nonneg(s: Seq<AcpWalletV>, th: Option<Seq<u8>>)
    ensures
        count_matching(s, th) >= 0,
    decreases s.len(),
{
    if s.len() > 0 {
        lemma_count_nonneg(s.drop_last(), th);
    }
}

/// Extending a prefix by one element adds one to the count exactly where
/// the element matches.
proof fn lemma_count_take_snoc(s: Seq<AcpWalletV>, th: Option<Seq<u8>>, k: int)
    requires
        0 <= k < s.len(),
    ensures
        count_matching(s.take(k + 1), th) == count_matching(s.take(k), th) + if s[k].type_hash
            == th {
            1int
        } else {
            0int
        },
{
    assert(s.take(k + 1).drop_last() =~= s.take(k));
    assert(s.take(k + 1).last() == s[k]);
}

/// A match at index `i` puts the count at one or more.
proof fn lemma_match_implies_count_pos(s: Seq<AcpWalletV>, th: Option<Seq<u8>>, i: int)
    requires
        0 <= i < s.len(),
        s[i].type_hash == th,
    ensures
        count_matching(s, th) >= 1,
    decreases s.len(),
{
    lemma_count_nonneg(s.drop_last(), th);
    if i < s.len() - 1 {
        lemma_match_implies_count_pos(s.drop_last(), th, i);
    }
}

/// A positive count names a matching index.
proof fn lemma_count_pos_implies_match(s: Seq<AcpWalletV>, th: Option<Seq<u8>>) -> (i: int)
    requires
        count_matching(s, th) >= 1,
    ensures
        0 <= i < s.len() && s[i].type_hash == th,
    decreases s.len(),
{
    lemma_count_nonneg(s.drop_last(), th);
    if s.last().type_hash == th {
        s.len() - 1
    } else {
        lemma_count_pos_implies_match(s.drop_last(), th)
    }
}

/// Two distinct matching indices put the count at two or more.
proof fn lemma_two_matches_imply_count_two(
    s: Seq<AcpWalletV>,
    th: Option<Seq<u8>>,
    i: int,
    j: int,
)
    requires
        0 <= i < j < s.len(),
        s[i].type_hash == th,
        s[j].type_hash == th,
    ensures
        count_matching(s, th) >= 2,
    decreases s.len(),
{
    if j == s.len() - 1 {
        lemma_match_implies_count_pos(s.drop_last(), th, i);
    } else {
        lemma_two_matches_imply_count_two(s.drop_last(), th, i, j);
        lemma_count_nonneg(s, th);
    }
}

/// The amount rule, executably.
fn amounts_ok(w: &AcpWallet, o: &AcpWallet, min_ckb: u64, min_udt: u128) -> (r: bool)
    ensures
        r == acp_amounts_ok(w@, o@, min_ckb, min_udt),
{
    let meet_ckb: bool = min_ckb <= u64::MAX - w.ckb_amount && o.ckb_amount >= w.ckb_amount
        + min_ckb;
    let meet_udt: bool = min_udt <= u128::MAX - w.udt_amount && o.udt_amount >= w.udt_amount
        + min_udt;
    (meet_ckb || meet_udt) && (meet_ckb || o.ckb_amount == w.ckb_amount) && (meet_udt
        || o.udt_amount == w.udt_amount)
}

/// Decides the anyone-can-pay pairing rule for the wallets of a group's
/// inputs (`wallets`) and outputs (`outputs`).
pub fn check_acp_pairing(
    wallets: &Vec<AcpWallet>,
    outputs: &Vec<AcpWallet>,
    min_ckb: u64,
    min_udt: u128,
) -> (r: bool)
    ensures
        r == acp_pairing_ok(
            wallets@.map_values(|w: AcpWallet| w@),
            outputs@.map_values(|o: AcpWallet| o@),
            min_ckb,
            min_udt,
        ),
{
    let ghost ws = wallets@.map_values(|w: AcpWallet| w@);
    let ghost os = outputs@.map_values(|o: AcpWallet| o@);
    let n = wallets.len();
    let mut cnt: Vec<usize> = Vec::new();
    let mut z: usize = 0;
    while z < n
        invariant
            0 <= z <= n,
            cnt@.len() == z,
            forall|j: int| 0 <= j < z ==> cnt@[j] == 0,
        decreases n - z,
    {
        cnt.push(0);
        z = z + 1;
    }
    let mut k: usize = 0;
    while k < outputs.len()
        invariant
            ws == wallets@.map_values(|w: AcpWallet| w@),
            os == outputs@.map_values(|o: AcpWallet| o@),
            n == wallets@.len(),
            0 <= k <= outputs@.len(),
            cnt@.len() == n,
            forall|j: int| 0 <= j < n ==> cnt@[j] as int == count_matching(os.take(k as int), ws[j].type_hash),
            forall|j: int| 0 <= j < n ==> cnt@[j] <= 1,
            forall|l: int| 0 <= l < k ==> count_matching(ws, os[l].type_hash) == 1,
            forall|l: int, m: int| 0 <= l < m < k ==> os[l].type_hash != os[m].type_hash,
            forall|l: int, j: int|
                0 <= l < k && 0 <= j < n && ws[j].type_hash == os[l].type_hash ==> acp_amounts_ok(
                    ws[j],
                    os[l],
                    min_ckb,
                    min_udt,
                ),
        decreases outputs@.len() - k,
    {
        let o = &outputs[k];
        let mut found: usize = 0;
        let mut i: usize = 0;
        while i < n
            invariant
                ws == wallets@.map_values(|w: AcpWallet| w@),
                os == outputs@.map_values(|o2: AcpWallet| o2@),
                n == wallets@.len(),
                0 <= k < outputs@.len(),
                o@ == os[k as int],
                0 <= i <= n,
                cnt@.len() == n,
                found as int == count_matching(ws.take(i as int), os[k as int].type_hash),
                found <= 1,
                forall|j: int|
                    i <= j < n ==> cnt@[j] as int == count_matching(
                        os.take(k as int),
                        ws[j].type_hash,
                    ),
                forall|j: int|
                    0 <= j < i ==> cnt@[j] as int == count_matching(
                        os.take(k as int + 1),
                        ws[j].type_hash,
                    ),
                forall|j: int| 0 <= j < n ==> cnt@[j] <= 1,
                forall|j: int|
                    0 <= j < i && ws[j].type_hash == os[k as int].type_hash ==> acp_amounts_ok(
                        ws[j],
                        os[k as int],
                        min_ckb,
                        min_udt,
                    ),
                forall|l: int| 0 <= l < k ==> count_matching(ws, os[l].type_hash) == 1,
                forall|l: int, m: int| 0 <= l < m < k ==> os[l].type_hash != os[m].type_hash,
                forall|l: int, j: int|
                    0 <= l < k && 0 <= j < n && ws[j].type_hash == os[l].type_hash
                        ==> acp_amounts_ok(ws[j], os[l], min_ckb, min_udt),
            decreases n - i,
        {
            let w = &wallets[i];
            proof {
                lemma_count_take_snoc(ws, os[k as int].type_hash, i as int);
                lemma_count_take_snoc(os, ws[i as int].type_hash, k as int);
            }
            if opt_bytes_eq(&w.type_hash, &o.type_hash) {
                if !amounts_ok(w, o, min_ckb, min_udt) {
                    // A matched pair breaks the amount rule.
                    return false;
                }
                if found >= 1 {
                    // Two wallets carry this output's type hash.
                    proof {
                        let i1 = lemma_count_pos_implies_match(
                            ws.take(i as int),
                            os[k as int].type_hash,
                        );
                        assert(ws[i1].type_hash == ws[i as int].type_hash);
                    }
                    return false;
                }
                let c = cnt[i];
                if c >= 1 {
                    // An earlier output already paired with this wallet.
                    proof {
                        let l = lemma_count_pos_implies_match(
                            os.take(k as int),
                            ws[i as int].type_hash,
                        );
                        assert(os[l].type_hash == os[k as int].type_hash);
                    }
                    return false;
                }
                found = found + 1;
                cnt.set(i, c + 1);
            }
            i = i + 1;
        }
        proof {
            assert(ws.take(n as int) =~= ws);
        }
        if found == 0 {
            // No wallet carries this output's type hash.
            proof {
                let ghost kth = os[k as int].type_hash;
                assert forall|j: int| 0 <= j < n implies ws[j].type_hash != kth by {
                    if ws[j].type_hash == os[k as int].type_hash {
                        lemma_match_implies_count_pos(ws, os[k as int].type_hash, j);
                    }
                }
            }
            return false;
        }
        proof {
            // This output paired with exactly one wallet, and with none
            // that an earlier output had already paired with.
            assert(count_matching(ws, os[k as int].type_hash) == 1);
            assert forall|l: int| 0 <= l < k implies os[l].type_hash != os[
                k as int].type_hash by {
                if os[l].type_hash == os[k as int].type_hash {
                    let i3 = lemma_count_pos_implies_match(ws, os[k as int].type_hash);
                    assert(cnt@[i3] as int == count_matching(os.take(k as int + 1), ws[i3].type_hash));
                    lemma_count_take_snoc(os, ws[i3].type_hash, k as int);
                    assert(os.take(k as int)[l] == os[l]);
                    lemma_match_implies_count_pos(os.take(k as int), ws[i3].type_hash, l);
                }
            }
        }
        k = k + 1;
    }
    proof {
        assert(os.take(outputs@.len() as int) =~= os);
    }
    let mut i2: usize = 0;
    while i2 < n
        invariant
            ws == wallets@.map_values(|w: AcpWallet| w@),
            os == outputs@.map_values(|o: AcpWallet| o@),
            n == wallets@.len(),
            0 <= i2 <= n,
            cnt@.len() == n,
            forall|j: int| 0 <= j < n ==> cnt@[j] as int == count_matching(os, ws[j].type_hash),
            forall|j: int| 0 <= j < n ==> cnt@[j] <= 1,
            forall|l: int| 0 <= l < os.len() ==> count_matching(ws, os[l].type_hash) == 1,
            forall|l: int, m: int| 0 <= l < m < os.len() ==> os[l].type_hash != os[m].type_hash,
            forall|l: int, j: int|
                0 <= l < os.len() && 0 <= j < n && ws[j].type_hash == os[l].type_hash
                    ==> acp_amounts_ok(ws[j], os[l], min_ckb, min_udt),
            forall|j: int| 0 <= j < i2 ==> cnt@[j] == 1,
        decreases n - i2,
    {
        if cnt[i2] != 1 {
            // This wallet paired with no output.
            proof {
                assert(count_matching(os, ws[i2 as int].type_hash) == 0);
                let ghost ith = ws[i2 as int].type_hash;
                assert forall|l: int| 0 <= l < os.len() implies os[l].type_hash != ith by {
                    if os[l].type_hash == ws[i2 as int].type_hash {
                        lemma_match_implies_count_pos(os, ws[i2 as int].type_hash, l);
                    }
                }
            }
            return false;
        }
        i2 = i2 + 1;
    }
    // Every check passed: the five clauses of the pairing rule hold.
    proof {
        assert(os.take(os.len() as int) =~= os);
        assert forall|i: int, j: int| 0 <= i < j < ws.len() implies ws[i].type_hash
            != ws[j].type_hash by {
            if ws[i].type_hash == ws[j].type_hash {
                assert(cnt@[i] as int == count_matching(os, ws[i].type_hash));
                assert(cnt@[i] == 1);
                let l = lemma_count_pos_implies_match(os, ws[i].type_hash);
                lemma_two_matches_imply_count_two(ws, os[l].type_hash, i, j);
                assert(count_matching(ws, os[l].type_hash) == 1);
            }
        }
        assert forall|k2: int| 0 <= k2 < os.len() implies (exists|i: int|
            0 <= i < ws.len() && (#[trigger] ws[i]).type_hash == (#[trigger] os[k2]).type_hash) by {
            let i = lemma_count_pos_implies_match(ws, os[k2].type_hash);
            assert(ws[i].type_hash == os[k2].type_hash);
        }
        assert forall|i: int| 0 <= i < ws.len() implies (exists|k2: int|
            0 <= k2 < os.len() && (#[trigger] os[k2]).type_hash == (#[trigger] ws[i]).type_hash) by {
            assert(cnt@[i] as int == count_matching(os, ws[i].type_hash));
            assert(cnt@[i] == 1);
            let k2 = lemma_count_pos_implies_match(os, ws[i].type_hash);
            assert(os[k2].type_hash == ws[i].type_hash);
        }
    }
    true
}

/// The pairing law: where the anyone-can-pay rule accepts a group, every
/// output wallet pairs with exactly one input wallet — one with its type
/// hash exists, and no two input wallets share it.
pub proof fn lemma_acp_pairing_law(
    ws: Seq<AcpWalletV>,
    os: Seq<AcpWalletV>,
    min_ckb: u64,
    min_udt: u128,
)
    requires
        acp_pairing_ok(ws, os, min_ckb, min_udt),
    ensures
        forall|k: int|
            0 <= k < os.len() ==> exists|i: int|
                0 <= i < ws.len() && (#[trigger] ws[i]).type_hash == (#[trigger] os[k]).type_hash,
        forall|i: int, j: int, k: int|
            0 <= i < ws.len() && 0 <= j < ws.len() && 0 <= k < os.len() && (
            #[trigger] ws[i]).type_hash == (#[trigger] os[k]).type_hash && (
            #[trigger] ws[j]).type_hash == os[k].type_hash ==> i == j,
{
    assert forall|i: int, j: int, k: int|
        0 <= i < ws.len() && 0 <= j < ws.len() && 0 <= k < os.len() && (#[trigger] ws[i]).type_hash
        == (#[trigger] os[k]).type_hash && (#[trigger] ws[j]).type_hash
        == os[k].type_hash implies i == j by {
        if i < j {
            assert(ws[i].type_hash != ws[j].type_hash);
        }
        if j < i {
            assert(ws[j].type_hash != ws[i].type_hash);
        }
    }
}

// ---------------------------------------------------------------------
// Anyone-can-pay minimums
// ---------------------------------------------------------------------

/// 10 to the power `n`.
pub open spec fn pow10(n: int) -> int
    decreases n,
{
    if n <= 0 {
        1
    } else {
        10 * pow10(n - 1)
    }
}

proof fn lemma_pow10_pos(n: int)
    ensures
        pow10(n) >= 1,
    decreases n,
{
    if n > 0 {
        lemma_pow10_pos(n - 1);
    }
}

proof fn lemma_pow10_mono(m: int, n: int)
    requires
        0 <= m <= n,
    ensures
        pow10(m) <= pow10(n),
    decreases n - m,
{
    if m < n {
        lemma_pow10_mono(m, n - 1);
        lemma_pow10_pos(n - 1);
    }
}

proof fn lemma_pow10_values()
    ensures
        pow10(19) == 0x8AC7230489E80000,
        pow10(38) == 0x4B3B4CA85A86C47A098A224000000000,
{
    assert(pow10(0) == 1);
    assert(pow10(1) == 10);
    assert(pow10(2) == 100);
    assert(pow10(3) == 1000);
    assert(pow10(4) == 10000);
    assert(pow10(5) == 100000);
    assert(pow10(6) == 1000000);
    assert(pow10(7) == 10000000);
    assert(pow10(8) == 100000000);
    assert(pow10(9) == 1000000000);
    assert(pow10(10) == 10000000000);
    assert(pow10(11) == 100000000000);
    assert(pow10(12) == 1000000000000);
    assert(pow10(13) == 10000000000000);
    assert(pow10(14) == 100000000000000);
    assert(pow10(15) == 1000000000000000);
    assert(pow10(16) == 10000000000000000);
    assert(pow10(17) == 100000000000000000);
    assert(pow10(18) == 1000000000000000000);
    assert(pow10(19) == 10000000000000000000);
    assert(pow10(20) == 100000000000000000000);
    assert(pow10(21) == 1000000000000000000000);
    assert(pow10(22) == 10000000000000000000000);
    assert(pow10(23) == 100000000000000000000000);
    assert(pow10(24) == 1000000000000000000000000);
    assert(pow10(25) == 10000000000000000000000000);
    assert(pow10(26) == 100000000000000000000000000);
    assert(pow10(27) == 1000000000000000000000000000);
    assert(pow10(28) == 10000000000000000000000000000);
    assert(pow10(29) == 100000000000000000000000000000);
    assert(pow10(30) == 1000000000000000000000000000000);
    assert(pow10(31) == 10000000000000000000000000000000);
    assert(pow10(32) == 100000000000000000000000000000000);
    assert(pow10(33) == 1000000000000000000000000000000000);
    assert(pow10(34) == 10000000000000000000000000000000000);
    assert(pow10(35) == 100000000000000000000000000000000000);
    assert(pow10(36) == 1000000000000000000000000000000000000);
    assert(pow10(37) == 10000000000000000000000000000000000000);
    assert(pow10(38) == 100000000000000000000000000000000000000);
}

/// `10^exponent` as a `u64`; exponents up to 19 fit.
pub fn pow10_u64(exponent: u8) -> (r: u64)
    requires
        exponent < 20,
    ensures
        r as int == pow10(exponent as int),
{
    proof {
        lemma_pow10_values();
    }
    let mut acc: u64 = 1;
    let mut i: u8 = 0;
    while i < exponent
        invariant
            0 <= i <= exponent < 20,
            acc as int == pow10(i as int),
            pow10(19) == 0x8AC7230489E80000,
        decreases exponent - i,
    {
        proof {
            lemma_pow10_mono(i as int + 1, 19);
        }
        acc = acc * 10;
        i = i + 1;
    }
    acc
}

/// `10^exponent` as a `u128`; exponents up to 38 fit.
pub fn pow10_u128(exponent: u8) -> (r: u128)
    requires
        exponent < 39,
    ensures
        r as int == pow10(exponent as int),
{
    proof {
        lemma_pow10_values();
    }
    let mut acc: u128 = 1;
    let mut i: u8 = 0;
    while i < exponent
        invariant
            0 <= i <= exponent < 39,
            acc as int == pow10(i as int),
            pow10(38) == 0x4B3B4CA85A86C47A098A224000000000,
        decreases exponent - i,
    {
        proof {
            lemma_pow10_mono(i as int + 1, 38);
        }
        acc = acc * 10;
        i = i + 1;
    }
    acc
}

/// The minimum capacity an output must add over its paired input: byte 20
/// of the script args gives the exponent, below 20; absent args leave no
/// minimum.
pub open spec fn acp_min_ckb(args: Seq<u8>) -> Option<u64> {
    if args.len() > 20 {
        if args[20] < 20 {
            Some(pow10(args[20] as int) as u64)
        } else {
            None
        }
    } else {
        Some(0)
    }
}

/// The minimum UDT amount an output must add over its paired input: byte
/// 21 of the script args gives the exponent, below 39.
pub open spec fn acp_min_udt(args: Seq<u8>) -> Option<u128> {
    if args.len() > 21 {
        if args[21] < 39 {
            Some(pow10(args[21] as int) as u128)
        } else {
            None
        }
    } else {
        Some(0)
    }
}

// ---------------------------------------------------------------------
// Cheque
// ---------------------------------------------------------------------

/// A cheque claim requires every group input's `since` to be zero.
pub const CHEQUE_CLAIM_SINCE: u64 = 0;

/// A cheque withdraw requires every group input's `since` to demand six
/// relative epochs.
pub const CHEQUE_WITHDRAW_SINCE: u64 = 0xA000000000000006;

/// Why the cheque rule rejected a transaction outright (as opposed to
/// finding it merely not yet unlocked).
#[derive(Clone, Copy, PartialEq, Eq, Structural, Debug)]
pub enum ChequeCheckError {
    /// The script args are not 40 bytes.
    BadArgsLength,
    /// A group input's `since` does not match the path taken.
    SinceMismatch,
    /// The witness of the matching input is not a witness-args table.
    MalformedWitness,
    /// The witness of the matching input has no lock field.
    MissingLockField,
}

/// The first input at or after `i` whose lock hash starts with the
/// receiver prefix.
pub open spec fn first_receiver_from(hashes: Seq<Seq<u8>>, rp: Seq<u8>, i: int) -> Option<int>
    decreases hashes.len() - i,
{
    if i < 0 || i >= hashes.len() {
        None
    } else if hashes[i].take(20) == rp {
        Some(i)
    } else {
        first_receiver_from(hashes, rp, i + 1)
    }
}

/// The first input at or after `i` whose lock hash starts with the sender
/// prefix and not with the receiver prefix.
pub open spec fn first_sender_from(hashes: Seq<Seq<u8>>, rp: Seq<u8>, sp: Seq<u8>, i: int) -> Option<
    int,
>
    decreases hashes.len() - i,
{
    if i < 0 || i >= hashes.len() {
        None
    } else if hashes[i].take(20) != rp && hashes[i].take(20) == sp {
        Some(i)
    } else {
        first_sender_from(hashes, rp, sp, i + 1)
    }
}

/// The witness at index `i`, or no bytes where the transaction carries
/// none there.
pub open spec fn witness_at(witnesses: Seq<Seq<u8>>, i: int) -> Seq<u8> {
    if 0 <= i < witnesses.len() {
        witnesses[i]
    } else {
        Seq::empty()
    }
}

/// One path of the cheque rule: every group `since` must equal
/// `required_since`, and the matching input's witness must parse with a
/// lock field.
pub open spec fn cheque_path_spec(
    i: int,
    required_since: u64,
    witnesses: Seq<Seq<u8>>,
    sinces: Seq<u64>,
) -> Result<bool, ChequeCheckError> {
    if exists|j: int| 0 <= j < sinces.len() && sinces[j] != required_since {
        Err(ChequeCheckError::SinceMismatch)
    } else {
        match wa_parse(witness_at(witnesses, i)) {
            None => Err(ChequeCheckError::MalformedWitness),
            Some(wa) => if wa.lock is None {
                Err(ChequeCheckError::MissingLockField)
            } else {
                Ok(true)
            },
        }
    }
}

/// The whole cheque rule: `args` splits into the receiver and sender
/// lock-hash prefixes; the first input matching the receiver selects the
/// claim path, else the first matching the sender selects the withdraw
/// path, else the group is simply not unlocked.
pub open spec fn cheque_check_spec(
    args: Seq<u8>,
    hashes: Seq<Seq<u8>>,
    witnesses: Seq<Seq<u8>>,
    sinces: Seq<u64>,
) -> Result<bool, ChequeCheckError> {
    if args.len() != 40 {
        Err(ChequeCheckError::BadArgsLength)
    } else {
        let rp = args.take(20);
        let sp = args.subrange(20, 40);
        match first_receiver_from(hashes, rp, 0) {
            Some(i) => cheque_path_spec(i, CHEQUE_CLAIM_SINCE, witnesses, sinces),
            None => match first_sender_from(hashes, rp, sp, 0) {
                Some(i) => cheque_path_spec(i, CHEQUE_WITHDRAW_SINCE, witnesses, sinces),
                None => Ok(false),
            },
        }
    }
}

/// Whether the group is unlocked under the cheque rule: the positive
/// outcome of [`cheque_check_spec`].
pub open spec fn cheque_unlocked(
    args: Seq<u8>,
    hashes: Seq<Seq<u8>>,
    witnesses: Seq<Seq<u8>>,
    sinces: Seq<u64>,
) -> bool {
    cheque_check_spec(args, hashes, witnesses, sinces) == Result::<
        bool,
        ChequeCheckError,
    >::Ok(true)
}

/// Whether the first 20 bytes of `h` equal `args[offset .. offset + 20]`.
fn prefix20_eq(h: &Vec<u8>, args: &Vec<u8>, offset: usize) -> (r: bool)
    requires
        h@.len() >= 20,
        offset <= usize::MAX - 20,
        args@.len() >= offset + 20,
    ensures
        r == (h@.take(20) == args@.subrange(offset as int, offset as int + 20)),
{
    let mut j: usize = 0;
    while j < 20
        invariant
            0 <= j <= 20,
            h@.len() >= 20,
            offset <= usize::MAX - 20,
            args@.len() >= offset + 20,
            forall|m: int| 0 <= m < j ==> h@[m] == args@[offset + m],
        decreases 20 - j,
    {
        if h[j] != args[offset + j] {
            proof {
                assert(h@.take(20)[j as int] != args@.subrange(offset as int, offset as int + 20)[j as int]);
            }
            return false;
        }
        j = j + 1;
    }
    proof {
        assert(h@.take(20) =~= args@.subrange(offset as int, offset as int + 20));
    }
    true
}

/// Decides the cheque rule from the script args, the lock hash of every
/// transaction input, the witnesses, and the `since` values of the
/// group's inputs.
#[verifier::loop_isolation(false)]
pub fn check_cheque(
    args: &Vec<u8>,
    lock_hashes: &Vec<Vec<u8>>,
    witnesses: &Vec<Vec<u8>>,
    group_sinces: &Vec<u64>,
) -> (r: Result<bool, ChequeCheckError>)
    requires
        forall|i: int| 0 <= i < lock_hashes@.len() ==> (#[trigger] lock_hashes@[i])@.len() == 32,
    ensures
        r == cheque_check_spec(
            args@,
            lock_hashes@.map_values(|h: Vec<u8>| h@),
            witnesses@.map_values(|w: Vec<u8>| w@),
            group_sinces@,
        ),
{
    let ghost hs = lock_hashes@.map_values(|h: Vec<u8>| h@);
    let ghost wits = witnesses@.map_values(|w: Vec<u8>| w@);
    if args.len() != 40 {
        return Err(ChequeCheckError::BadArgsLength);
    }
    let ghost rp = args@.take(20);
    let ghost sp = args@.subrange(20, 40);
    let mut ridx: Option<usize> = None;
    let mut sidx: Option<usize> = None;
    let mut i: usize = 0;
    while i < lock_hashes.len()
        invariant
            hs == lock_hashes@.map_values(|h: Vec<u8>| h@),
            forall|m: int| 0 <= m < hs.len() ==> (#[trigger] hs[m]).len() == 32,
            args@.len() == 40,
            rp == args@.take(20),
            sp == args@.subrange(20, 40),
            0 <= i <= hs.len(),
            match ridx {
                Some(r0) => first_receiver_from(hs, rp, 0) == Some(r0 as int),
                None => first_receiver_from(hs, rp, 0) == first_receiver_from(hs, rp, i as int),
            },
            match sidx {
                Some(s0) => first_sender_from(hs, rp, sp, 0) == Some(s0 as int),
                None => first_sender_from(hs, rp, sp, 0) == first_sender_from(
                    hs,
                    rp,
                    sp,
                    i as int,
                ),
            },
        decreases hs.len() - i,
    {
        let is_recv = prefix20_eq(&lock_hashes[i], args, 0);
        if is_recv {
            if ridx.is_none() {
                ridx = Some(i);
            }
        } else {
            let is_send = prefix20_eq(&lock_hashes[i], args, 20);
            if is_send {
                if sidx.is_none() {
                    sidx = Some(i);
                }
            }
        }
        i = i + 1;
    }
    let (sel, required_since): (Option<usize>, u64) = match ridx {
        Some(r0) => (Some(r0), CHEQUE_CLAIM_SINCE),
        None => match sidx {
            Some(s0) => (Some(s0), CHEQUE_WITHDRAW_SINCE),
            None => (None, 0),
        },
    };
    match sel {
        None => Ok(false),
        Some(sel_idx) => {
            let mut j: usize = 0;
            while j < group_sinces.len()
                invariant
                    0 <= j <= group_sinces@.len(),
                    forall|m: int| 0 <= m < j ==> group_sinces@[m] == required_since,
                decreases group_sinces@.len() - j,
            {
                if group_sinces[j] != required_since {
                    proof {
                        assert(group_sinces@[j as int] != required_since);
                    }
                    return Err(ChequeCheckError::SinceMismatch);
                }
                j = j + 1;
            }
            let parsed = if sel_idx < witnesses.len() {
                parse_witness_args(&witnesses[sel_idx])
            } else {
                let empty: Vec<u8> = Vec::new();
                parse_witness_args(&empty)
            };
            proof {
                assert(witness_at(wits, sel_idx as int) == if sel_idx < witnesses@.len() {
                    wits[sel_idx as int]
                } else {
                    Seq::<u8>::empty()
                });
            }
            match parsed {
                None => Err(ChequeCheckError::MalformedWitness),
                Some(wa) => {
                    match wa.lock {
                        None => Err(ChequeCheckError::MissingLockField),
                        Some(_) => Ok(true),
                    }
                },
            }
        },
    }
}

} // verus!
