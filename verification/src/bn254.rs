//! Arithmetic modulo the BN254 scalar field on 32-byte big-endian numbers,
//! the commitment the hub recomputes for a proof, and the byte layouts it
//! hands to the curve precompiles.
use vstd::prelude::*;
use vstd::string::StringSliceAdditionalSpecFns;
use crate::bytes::{keccak256, keccak256_spec};

verus! {

/// 256 to the power `n`.
pub open spec fn pow256(n: nat) -> nat
    decreases n,
{
    if n == 0 {
        1
    } else {
        256 * pow256((n - 1) as nat)
    }
}

/// The number that a big-endian byte string denotes.
pub open spec fn be_val(s: Seq<u8>) -> nat
    decreases s.len(),
{
    if s.len() == 0 {
        0
    } else {
        s[0] as nat * pow256((s.len() - 1) as nat) + be_val(s.drop_first())
    }
}

pub proof fn lemma_pow256_positive(n: nat)
    ensures
        pow256(n) >= 1,
    decreases n,
{
    if n > 0 {
        lemma_pow256_positive((n - 1) as nat);
    }
}

pub proof fn lemma_pow256_add(a: nat, b: nat)
    ensures
        pow256(a + b) == pow256(a) * pow256(b),
    decreases a,
{
    if a == 0 {
        assert(pow256(a) == 1);
        assert(pow256(a) * pow256(b) == pow256(b));
    } else {
        let a1 = (a - 1) as nat;
        lemma_pow256_add(a1, b);
        assert((a1 + b) as nat == (a + b - 1) as nat);
        assert(pow256(a + b) == 256 * pow256((a + b - 1) as nat));
        assert(pow256(a) == 256 * pow256(a1));
        let x = pow256(a1);
        let y = pow256(b);
        assert(256 * (x * y) == (256 * x) * y) by (nonlinear_arith);
    }
}

/// A string of `n` bytes denotes less than `256^n`.
pub proof fn lemma_be_bound(s: Seq<u8>)
    ensures
        be_val(s) < pow256(s.len()),
    decreases s.len(),
{
    if s.len() > 0 {
        let n = (s.len() - 1) as nat;
        lemma_be_bound(s.drop_first());
        assert(s[0] as nat * pow256(n) + be_val(s.drop_first()) < 256 * pow256(n)) by (nonlinear_arith)
            requires
                s[0] <= 255,
                be_val(s.drop_first()) < pow256(n),
        ;
    }
}

/// Splitting a string at `i` splits its value.
pub proof fn lemma_be_split(s: Seq<u8>, i: int)
    requires
        0 <= i <= s.len(),
    ensures
        be_val(s) == be_val(s.subrange(0, i)) * pow256((s.len() - i) as nat) + be_val(
            s.subrange(i, s.len() as int),
        ),
    decreases i,
{
    if i == 0 {
        assert(s.subrange(0, 0).len() == 0);
        assert(be_val(s.subrange(0, 0)) == 0);
        assert(s.subrange(0, s.len() as int) =~= s);
    } else {
        let t = s.drop_first();
        lemma_be_split(t, i - 1);
        assert(t.subrange(i - 1, t.len() as int) =~= s.subrange(i, s.len() as int));
        let p = s.subrange(0, i);
        assert(p.drop_first() =~= t.subrange(0, i - 1));
        assert(be_val(p) == s[0] as nat * pow256((i - 1) as nat) + be_val(t.subrange(0, i - 1)));
        lemma_pow256_add((i - 1) as nat, (s.len() - i) as nat);
        assert(((i - 1) as nat + (s.len() - i) as nat) as nat == (s.len() - 1) as nat);
        assert((t.len() - (i - 1)) as nat == (s.len() - i) as nat);
        let a = s[0] as nat;
        let x = pow256((i - 1) as nat);
        let y = pow256((s.len() - i) as nat);
        let q = be_val(t.subrange(0, i - 1));
        assert(x * y == pow256((s.len() - 1) as nat));
        assert((a * x + q) * y == a * (x * y) + q * y) by (nonlinear_arith);
        assert(be_val(s) == a * pow256((s.len() - 1) as nat) + be_val(t));
        assert(be_val(t) == q * y + be_val(s.subrange(i, s.len() as int)));
        assert(be_val(p) * y == (a * x + q) * y);
        assert(be_val(p) * y == a * pow256((s.len() - 1) as nat) + q * y);
    }
}

/// Appending a byte shifts the value by one byte.
pub proof fn lemma_be_push(s: Seq<u8>, b: u8)
    ensures
        be_val(s.push(b)) == be_val(s) * 256 + b,
{
    let t = s.push(b);
    lemma_be_split(t, s.len() as int);
    assert(t.subrange(0, s.len() as int) =~= s);
    let last = t.subrange(s.len() as int, t.len() as int);
    assert(last.drop_first().len() == 0);
    assert(be_val(last.drop_first()) == 0);
    assert(pow256(0) == 1);
    assert(last[0] == b);
    assert(be_val(last) == b as nat * pow256(0) + be_val(last.drop_first()));
    assert(be_val(last) == b);
}

/// Changing one byte changes the value by the difference at its weight.
pub proof fn lemma_be_update(s: Seq<u8>, k: int, b: u8)
    requires
        0 <= k < s.len(),
    ensures
        be_val(s.update(k, b)) + s[k] as nat * pow256((s.len() - 1 - k) as nat) == be_val(s) + b as nat
            * pow256((s.len() - 1 - k) as nat),
{
    let t = s.update(k, b);
    lemma_be_split(s, k);
    lemma_be_split(t, k);
    assert(t.subrange(0, k) =~= s.subrange(0, k));
    let sr = s.subrange(k, s.len() as int);
    let tr = t.subrange(k, t.len() as int);
    assert(sr.drop_first() =~= tr.drop_first());
    assert(be_val(sr) == s[k] as nat * pow256((sr.len() - 1) as nat) + be_val(sr.drop_first()));
    assert(be_val(tr) == b as nat * pow256((tr.len() - 1) as nat) + be_val(tr.drop_first()));
}

/// Two strings of one length that agree before `i` and differ at `i` are
/// ordered by their bytes at `i`.
pub proof fn lemma_be_lex(a: Seq<u8>, b: Seq<u8>, i: int)
    requires
        a.len() == b.len(),
        0 <= i < a.len(),
        a.subrange(0, i) == b.subrange(0, i),
        a[i] > b[i],
    ensures
        be_val(a) > be_val(b),
{
    lemma_be_split(a, i);
    lemma_be_split(b, i);
    let n = (a.len() - i) as nat;
    let ar = a.subrange(i, a.len() as int);
    let br = b.subrange(i, b.len() as int);
    lemma_be_bound(br.drop_first());
    assert(be_val(ar) == a[i] as nat * pow256((n - 1) as nat) + be_val(ar.drop_first()));
    assert(be_val(br) == b[i] as nat * pow256((n - 1) as nat) + be_val(br.drop_first()));
    assert(be_val(ar) > be_val(br)) by (nonlinear_arith)
        requires
            be_val(ar) == a[i] as nat * pow256((n - 1) as nat) + be_val(ar.drop_first()),
            be_val(br) == b[i] as nat * pow256((n - 1) as nat) + be_val(br.drop_first()),
            be_val(br.drop_first()) < pow256((n - 1) as nat),
            a[i] >= b[i] + 1,
    ;
    let p = be_val(a.subrange(0, i));
    let y = pow256(n);
    assert(p * y + be_val(ar) > p * y + be_val(br));
}

/// The BN254 scalar field modulus r.
pub open spec fn scalar_modulus() -> nat {
    21888242871839275222246405745257275088548364400416034343698204186575808495617nat
}

/// The BN254 base field modulus p.
pub open spec fn base_modulus() -> nat {
    21888242871839275222246405745257275088696311157297823662689037894645226208583nat
}

/// The BN254 scalar field modulus r, big-endian.
pub const BN254_SCALAR_FIELD: [u8; 32] = [
    0x30, 0x64, 0x4e, 0x72, 0xe1, 0x31, 0xa0, 0x29,
    0xb8, 0x50, 0x45, 0xb6, 0x81, 0x81, 0x58, 0x5d,
    0x28, 0x33, 0xe8, 0x48, 0x79, 0xb9, 0x70, 0x91,
    0x43, 0xe1, 0xf5, 0x93, 0xf0, 0x00, 0x00, 0x01,
];

/// The BN254 base field modulus p, big-endian.
pub const BN254_BASE_FIELD: [u8; 32] = [
    0x30, 0x64, 0x4e, 0x72, 0xe1, 0x31, 0xa0, 0x29,
    0xb8, 0x50, 0x45, 0xb6, 0x81, 0x81, 0x58, 0x5d,
    0x97, 0x81, 0x6a, 0x91, 0x68, 0x71, 0xca, 0x8d,
    0x3c, 0x20, 0x8c, 0x16, 0xd8, 0x7c, 0xfd, 0x47,
];

/// The value of a byte string of known bytes, fold by fold from the last
/// byte up.
proof fn lemma_be_suffixes(s: Seq<u8>, k: int)
    requires
        0 <= k <= s.len(),
    ensures
        be_val(s.subrange(k, s.len() as int)) == be_val_from(s, k),
    decreases s.len() - k,
{
    if k < s.len() {
        lemma_be_suffixes(s, k + 1);
        assert(s.subrange(k, s.len() as int).drop_first() =~= s.subrange(k + 1, s.len() as int));
    } else {
        assert(s.subrange(k, s.len() as int).len() == 0);
    }
}

/// The value of the bytes of `s` from `k` on, summed by weight.
pub open spec fn be_val_from(s: Seq<u8>, k: int) -> nat
    decreases s.len() - k,
{
    if k >= s.len() || k < 0 {
        0
    } else {
        s[k] as nat * pow256((s.len() - 1 - k) as nat) + be_val_from(s, k + 1)
    }
}

/// The powers of 256 up to 2^256.
pub proof fn lemma_pow256_table()
    ensures
        pow256(0) == 1nat,
        pow256(1) == 256nat,
        pow256(2) == 65536nat,
        pow256(3) == 16777216nat,
        pow256(4) == 4294967296nat,
        pow256(5) == 1099511627776nat,
        pow256(6) == 281474976710656nat,
        pow256(7) == 72057594037927936nat,
        pow256(8) == 18446744073709551616nat,
        pow256(9) == 4722366482869645213696nat,
        pow256(10) == 1208925819614629174706176nat,
        pow256(11) == 309485009821345068724781056nat,
        pow256(12) == 79228162514264337593543950336nat,
        pow256(13) == 20282409603651670423947251286016nat,
        pow256(14) == 5192296858534827628530496329220096nat,
        pow256(15) == 1329227995784915872903807060280344576nat,
        pow256(16) == 340282366920938463463374607431768211456nat,
        pow256(17) == 87112285931760246646623899502532662132736nat,
        pow256(18) == 22300745198530623141535718272648361505980416nat,
        pow256(19) == 5708990770823839524233143877797980545530986496nat,
        pow256(20) == 1461501637330902918203684832716283019655932542976nat,
        pow256(21) == 374144419156711147060143317175368453031918731001856nat,
        pow256(22) == 95780971304118053647396689196894323976171195136475136nat,
        pow256(23) == 24519928653854221733733552434404946937899825954937634816nat,
        pow256(24) == 6277101735386680763835789423207666416102355444464034512896nat,
        pow256(25) == 1606938044258990275541962092341162602522202993782792835301376nat,
        pow256(26) == 411376139330301510538742295639337626245683966408394965837152256nat,
        pow256(27) == 105312291668557186697918027683670432318895095400549111254310977536nat,
        pow256(28) == 26959946667150639794667015087019630673637144422540572481103610249216nat,
        pow256(29) == 6901746346790563787434755862277025452451108972170386555162524223799296nat,
        pow256(30) == 1766847064778384329583297500742918515827483896875618958121606201292619776nat,
        pow256(31) == 452312848583266388373324160190187140051835877600158453279131187530910662656nat,
        pow256(32) == 115792089237316195423570985008687907853269984665640564039457584007913129639936nat,
{
    assert(pow256(0) == 1nat);
    assert(pow256(1) == 256nat);
    assert(pow256(2) == 65536nat);
    assert(pow256(3) == 16777216nat);
    assert(pow256(4) == 4294967296nat);
    assert(pow256(5) == 1099511627776nat);
    assert(pow256(6) == 281474976710656nat);
    assert(pow256(7) == 72057594037927936nat);
    assert(pow256(8) == 18446744073709551616nat);
    assert(pow256(9) == 4722366482869645213696nat);
    assert(pow256(10) == 1208925819614629174706176nat);
    assert(pow256(11) == 309485009821345068724781056nat);
    assert(pow256(12) == 79228162514264337593543950336nat);
    assert(pow256(13) == 20282409603651670423947251286016nat);
    assert(pow256(14) == 5192296858534827628530496329220096nat);
    assert(pow256(15) == 1329227995784915872903807060280344576nat);
    assert(pow256(16) == 340282366920938463463374607431768211456nat);
    assert(pow256(17) == 87112285931760246646623899502532662132736nat);
    assert(pow256(18) == 22300745198530623141535718272648361505980416nat);
    assert(pow256(19) == 5708990770823839524233143877797980545530986496nat);
    assert(pow256(20) == 1461501637330902918203684832716283019655932542976nat);
    assert(pow256(21) == 374144419156711147060143317175368453031918731001856nat);
    assert(pow256(22) == 95780971304118053647396689196894323976171195136475136nat);
    assert(pow256(23) == 24519928653854221733733552434404946937899825954937634816nat);
    assert(pow256(24) == 6277101735386680763835789423207666416102355444464034512896nat);
    assert(pow256(25) == 1606938044258990275541962092341162602522202993782792835301376nat);
    assert(pow256(26) == 411376139330301510538742295639337626245683966408394965837152256nat);
    assert(pow256(27) == 105312291668557186697918027683670432318895095400549111254310977536nat);
    assert(pow256(28) == 26959946667150639794667015087019630673637144422540572481103610249216nat);
    assert(pow256(29) == 6901746346790563787434755862277025452451108972170386555162524223799296nat);
    assert(pow256(30) == 1766847064778384329583297500742918515827483896875618958121606201292619776nat);
    assert(pow256(31) == 452312848583266388373324160190187140051835877600158453279131187530910662656nat);
    assert(pow256(32) == 115792089237316195423570985008687907853269984665640564039457584007913129639936nat);
}

#[verifier::rlimit(50)]
proof fn lemma_scalar_modulus_bytes()
    ensures
        be_val(BN254_SCALAR_FIELD@) == scalar_modulus(),
{
    lemma_pow256_table();
    assert(BN254_SCALAR_FIELD@ =~= seq![0x30u8, 0x64u8, 0x4eu8, 0x72u8, 0xe1u8, 0x31u8, 0xa0u8, 0x29u8, 0xb8u8, 0x50u8, 0x45u8, 0xb6u8, 0x81u8, 0x81u8, 0x58u8, 0x5du8, 0x28u8, 0x33u8, 0xe8u8, 0x48u8, 0x79u8, 0xb9u8, 0x70u8, 0x91u8, 0x43u8, 0xe1u8, 0xf5u8, 0x93u8, 0xf0u8, 0x00u8, 0x00u8, 0x01u8]);
    assert(BN254_SCALAR_FIELD@.len() == 32);
    assert(BN254_SCALAR_FIELD@[31] == 1u8);
    assert(be_val_from(BN254_SCALAR_FIELD@, 32) == 0);
    assert(be_val_from(BN254_SCALAR_FIELD@, 31) == 1nat);
    assert(be_val_from(BN254_SCALAR_FIELD@, 30) == 1nat);
    assert(be_val_from(BN254_SCALAR_FIELD@, 29) == 1nat);
    assert(be_val_from(BN254_SCALAR_FIELD@, 28) == 4026531841nat);
    assert(be_val_from(BN254_SCALAR_FIELD@, 27) == 635386724353nat);
    assert(be_val_from(BN254_SCALAR_FIELD@, 26) == 270015735529473nat);
    assert(be_val_from(BN254_SCALAR_FIELD@, 25) == 63601885495427073nat);
    assert(be_val_from(BN254_SCALAR_FIELD@, 24) == 4891460686036598785nat);
    assert(be_val_from(BN254_SCALAR_FIELD@, 23) == 2679669351373921583105nat);
    assert(be_val_from(BN254_SCALAR_FIELD@, 22) == 531584715432774185517057nat);
    assert(be_val_from(BN254_SCALAR_FIELD@, 21) == 224182861344139171506159617nat);
    assert(be_val_from(BN254_SCALAR_FIELD@, 20) == 37671869049726892487204667393nat);
    assert(be_val_from(BN254_SCALAR_FIELD@, 19) == 5742099570076759199222369091585nat);
    assert(be_val_from(BN254_SCALAR_FIELD@, 18) == 4711261127617264297554984667447297nat);
    assert(be_val_from(BN254_SCALAR_FIELD@, 17) == 269518400912893473352610297457672193nat);
    assert(be_val_from(BN254_SCALAR_FIELD@, 16) == 53438638232309528389504892708671455233nat);
    assert(be_val_from(BN254_SCALAR_FIELD@, 15) == 31699698761879586630483343383863115120641nat);
    assert(be_val_from(BN254_SCALAR_FIELD@, 14) == 7697580860756781291533386499606737382801409nat);
    assert(be_val_from(BN254_SCALAR_FIELD@, 13) == 2884493711471207166549641043671245371654275073nat);
    assert(be_val_from(BN254_SCALAR_FIELD@, 12) == 739344303147746505792625201279610735745151533057nat);
    assert(be_val_from(BN254_SCALAR_FIELD@, 11) == 266732642297372077618863264755643120313124874354689nat);
    assert(be_val_from(BN254_SCALAR_FIELD@, 10) == 26082697564110441224768752149856066379515517313482753nat);
    assert(be_val_from(BN254_SCALAR_FIELD@, 9) == 7688560401893554733016503887901401984473211128231493633nat);
    assert(be_val_from(BN254_SCALAR_FIELD@, 8) == 4519355432711070353739990151818411638558041186836756299777nat);
    assert(be_val_from(BN254_SCALAR_FIELD@, 7) == 261880526583564981671007356503332734698754614409862171328513nat);
    assert(be_val_from(BN254_SCALAR_FIELD@, 6) == 257371967608022009068384942131089349138251233619656715819548673nat);
    assert(be_val_from(BN254_SCALAR_FIELD@, 5) == 20414802794792796025466757428458633035176765587631010041840009217nat);
    assert(be_val_from(BN254_SCALAR_FIELD@, 4) == 23715680428220159803057022986254305904786573230711181042261809954817nat);
    assert(be_val_from(BN254_SCALAR_FIELD@, 3) == 3097149600483393096395096742906492202699421037400336443888073378365441nat);
    assert(be_val_from(BN254_SCALAR_FIELD@, 2) == 541433364650147368516306054000514477493885920866690487746564962834710529nat);
    assert(be_val_from(BN254_SCALAR_FIELD@, 1) == 177226139842488580326846056128292366060242275608428586299907185092096688129nat);
    assert(be_val_from(BN254_SCALAR_FIELD@, 0) == 21888242871839275222246405745257275088548364400416034343698204186575808495617nat);
    lemma_be_suffixes(BN254_SCALAR_FIELD@, 0);
    assert(BN254_SCALAR_FIELD@.subrange(0, 32) =~= BN254_SCALAR_FIELD@);
}

#[verifier::rlimit(50)]
proof fn lemma_base_modulus_bytes()
    ensures
        be_val(BN254_BASE_FIELD@) == base_modulus(),
{
    lemma_pow256_table();
    assert(BN254_BASE_FIELD@ =~= seq![0x30u8, 0x64u8, 0x4eu8, 0x72u8, 0xe1u8, 0x31u8, 0xa0u8, 0x29u8, 0xb8u8, 0x50u8, 0x45u8, 0xb6u8, 0x81u8, 0x81u8, 0x58u8, 0x5du8, 0x97u8, 0x81u8, 0x6au8, 0x91u8, 0x68u8, 0x71u8, 0xcau8, 0x8du8, 0x3cu8, 0x20u8, 0x8cu8, 0x16u8, 0xd8u8, 0x7cu8, 0xfdu8, 0x47u8]);
    assert(be_val_from(BN254_BASE_FIELD@, 32) == 0);
    assert(be_val_from(BN254_BASE_FIELD@, 31) == 71nat);
    assert(be_val_from(BN254_BASE_FIELD@, 30) == 64839nat);
    assert(be_val_from(BN254_BASE_FIELD@, 29) == 8191303nat);
    assert(be_val_from(BN254_BASE_FIELD@, 28) == 3632069959nat);
    assert(be_val_from(BN254_BASE_FIELD@, 27) == 98121350471nat);
    assert(be_val_from(BN254_BASE_FIELD@, 26) == 154029749239111nat);
    assert(be_val_from(BN254_BASE_FIELD@, 25) == 9161229003980103nat);
    assert(be_val_from(BN254_BASE_FIELD@, 24) == 4332616871279656263nat);
    assert(be_val_from(BN254_BASE_FIELD@, 23) == 2605323531264326434119nat);
    assert(be_val_from(BN254_BASE_FIELD@, 22) == 956523353070932659600711nat);
    assert(be_val_from(BN254_BASE_FIELD@, 21) == 137565140969524029401398599nat);
    assert(be_val_from(BN254_BASE_FIELD@, 20) == 32324006162389411176778628423nat);
    assert(be_val_from(BN254_BASE_FIELD@, 19) == 11520407570730718362240651427143nat);
    assert(be_val_from(BN254_BASE_FIELD@, 18) == 2161455825557807783300649287744839nat);
    assert(be_val_from(BN254_BASE_FIELD@, 17) == 671967750576550571863734675757137223nat);
    assert(be_val_from(BN254_BASE_FIELD@, 16) == 201385395114098847380338600778089168199nat);
    assert(be_val_from(BN254_BASE_FIELD@, 15) == 31847645518761375949474177091932532833607nat);
    assert(be_val_from(BN254_BASE_FIELD@, 14) == 7697728807513663080852377333314806800514375nat);
    assert(be_val_from(BN254_BASE_FIELD@, 13) == 2884493859417964048338960034504953441071988039nat);
    assert(be_val_from(BN254_BASE_FIELD@, 12) == 739344303295693262674414520270444443814569246023nat);
    assert(be_val_from(BN254_BASE_FIELD@, 11) == 266732642297520024375745054074633954021194292067655nat);
    assert(be_val_from(BN254_BASE_FIELD@, 10) == 26082697564110589171525633939175057213223586731195719nat);
    assert(be_val_from(BN254_BASE_FIELD@, 9) == 7688560401893554880963260769690720975306919197649206599nat);
    assert(be_val_from(BN254_BASE_FIELD@, 8) == 4519355432711070353887936908700200957548874894906174012743nat);
    assert(be_val_from(BN254_BASE_FIELD@, 7) == 261880526583564981671155303260214524017745448117931589041479nat);
    assert(be_val_from(BN254_BASE_FIELD@, 6) == 257371967608022009068385090077846230927570224453364785237261639nat);
    assert(be_val_from(BN254_BASE_FIELD@, 5) == 20414802794792796025466757576405389916966084578464718111257722183nat);
    assert(be_val_from(BN254_BASE_FIELD@, 4) == 23715680428220159803057022986402252661668362549702014750331227667783nat);
    assert(be_val_from(BN254_BASE_FIELD@, 3) == 3097149600483393096395096742906640149456302826719327277596142796078407nat);
    assert(be_val_from(BN254_BASE_FIELD@, 2) == 541433364650147368516306054000514625440642802656009478580273032252423495nat);
    assert(be_val_from(BN254_BASE_FIELD@, 1) == 177226139842488580326846056128292366208189032490217905290740893161514401095nat);
    assert(be_val_from(BN254_BASE_FIELD@, 0) == 21888242871839275222246405745257275088696311157297823662689037894645226208583nat);
    lemma_be_suffixes(BN254_BASE_FIELD@, 0);
    assert(BN254_BASE_FIELD@.subrange(0, 32) =~= BN254_BASE_FIELD@);
}

pub proof fn lemma_moduli()
    ensures
        be_val(BN254_SCALAR_FIELD@) == scalar_modulus(),
        be_val(BN254_BASE_FIELD@) == base_modulus(),
        pow256(32) == 115792089237316195423570985008687907853269984665640564039457584007913129639936nat,
{
    lemma_scalar_modulus_bytes();
    lemma_base_modulus_bytes();
    lemma_pow256_table();
}

/// Compare two 32-byte big-endian numbers: `x >= y`.
fn ge_bytes32(x: &[u8; 32], y: &[u8; 32]) -> (r: bool)
    ensures
        r == (be_val(x@) >= be_val(y@)),
{
    let mut i: usize = 0;
    while i < 32
        invariant
            i <= 32,
            x@.subrange(0, i as int) == y@.subrange(0, i as int),
        decreases 32 - i,
    {
        if x[i] > y[i] {
            proof {
                lemma_be_lex(x@, y@, i as int);
            }
            return true;
        }
        if x[i] < y[i] {
            proof {
                lemma_be_lex(y@, x@, i as int);
            }
            return false;
        }
        assert(x@.subrange(0, i + 1) =~= x@.subrange(0, i as int).push(x@[i as int]));
        assert(y@.subrange(0, i + 1) =~= y@.subrange(0, i as int).push(y@[i as int]));
        i = i + 1;
    }
    assert(x@ =~= x@.subrange(0, 32));
    assert(y@ =~= y@.subrange(0, 32));
    true
}

/// `x - y` on 32-byte numbers, with the borrow out of the top byte.
fn sub_bytes32(x: &[u8; 32], y: &[u8; 32]) -> (r: ([u8; 32], u8))
    ensures
        r.1 <= 1,
        be_val(r.0@) + be_val(y@) == be_val(x@) + r.1 * pow256(32),
{
    let mut result = [0u8; 32];
    let mut borrow: u8 = 0;
    let mut i: usize = 32;
    assert(x@.subrange(32, 32).len() == 0 && y@.subrange(32, 32).len() == 0 && result@.subrange(
        32,
        32,
    ).len() == 0);
    while i > 0
        invariant
            i <= 32,
            result@.len() == 32,
            borrow <= 1,
            be_val(result@.subrange(i as int, 32)) + be_val(y@.subrange(i as int, 32)) == be_val(
                x@.subrange(i as int, 32),
            ) + borrow * pow256((32 - i) as nat),
        decreases i,
    {
        i = i - 1;
        let d: i32 = x[i] as i32 - y[i] as i32 - borrow as i32;
        let ghost old_result = result@;
        let ghost ob = borrow;
        if d < 0 {
            result.set(i, (d + 256) as u8);
            borrow = 1;
        } else {
            result.set(i, d as u8);
            borrow = 0;
        }
        proof {
            let rs = result@.subrange(i as int, 32);
            let xs = x@.subrange(i as int, 32);
            let ys = y@.subrange(i as int, 32);
            assert(rs.drop_first() =~= old_result.subrange(i + 1, 32));
            assert(xs.drop_first() =~= x@.subrange(i + 1, 32));
            assert(ys.drop_first() =~= y@.subrange(i + 1, 32));
            let w = pow256((31 - i) as nat);
            assert(pow256((32 - i) as nat) == 256 * w);
            assert(result@[i as int] + y@[i as int] + ob == x@[i as int] + 256 * borrow);
            assert(be_val(rs) + be_val(ys) == be_val(xs) + borrow * pow256((32 - i) as nat))
                by (nonlinear_arith)
                requires
                    be_val(rs) == rs[0] * w + be_val(rs.drop_first()),
                    be_val(xs) == xs[0] * w + be_val(xs.drop_first()),
                    be_val(ys) == ys[0] * w + be_val(ys.drop_first()),
                    rs[0] + ys[0] + ob == xs[0] + 256 * borrow,
                    be_val(rs.drop_first()) + be_val(ys.drop_first()) == be_val(xs.drop_first()) + ob
                        * w,
                    pow256((32 - i) as nat) == 256 * w,
            ;
        }
    }
    assert(result@.subrange(0, 32) =~= result@);
    assert(x@.subrange(0, 32) =~= x@);
    assert(y@.subrange(0, 32) =~= y@);
    (result, borrow)
}

/// `x + y` on 32-byte numbers, with the carry out of the top byte.
fn add_bytes32(x: &[u8; 32], y: &[u8; 32]) -> (r: ([u8; 32], u8))
    ensures
        r.1 <= 1,
        be_val(r.0@) + r.1 * pow256(32) == be_val(x@) + be_val(y@),
{
    let mut result = [0u8; 32];
    let mut carry: u8 = 0;
    let mut i: usize = 32;
    assert(x@.subrange(32, 32).len() == 0 && y@.subrange(32, 32).len() == 0 && result@.subrange(
        32,
        32,
    ).len() == 0);
    while i > 0
        invariant
            i <= 32,
            result@.len() == 32,
            carry <= 1,
            be_val(result@.subrange(i as int, 32)) + carry * pow256((32 - i) as nat) == be_val(
                x@.subrange(i as int, 32),
            ) + be_val(y@.subrange(i as int, 32)),
        decreases i,
    {
        i = i - 1;
        let sum: u16 = x[i] as u16 + y[i] as u16 + carry as u16;
        let ghost old_result = result@;
        let ghost oc = carry;
        result.set(i, (sum % 256) as u8);
        carry = (sum / 256) as u8;
        proof {
            let rs = result@.subrange(i as int, 32);
            let xs = x@.subrange(i as int, 32);
            let ys = y@.subrange(i as int, 32);
            assert(rs.drop_first() =~= old_result.subrange(i + 1, 32));
            assert(xs.drop_first() =~= x@.subrange(i + 1, 32));
            assert(ys.drop_first() =~= y@.subrange(i + 1, 32));
            let w = pow256((31 - i) as nat);
            assert(pow256((32 - i) as nat) == 256 * w);
            assert(be_val(rs) + carry * pow256((32 - i) as nat) == be_val(xs) + be_val(ys))
                by (nonlinear_arith)
                requires
                    be_val(rs) == rs[0] * w + be_val(rs.drop_first()),
                    be_val(xs) == xs[0] * w + be_val(xs.drop_first()),
                    be_val(ys) == ys[0] * w + be_val(ys.drop_first()),
                    rs[0] + 256 * carry == xs[0] + ys[0] + oc,
                    be_val(rs.drop_first()) + oc * w == be_val(xs.drop_first()) + be_val(
                        ys.drop_first(),
                    ),
                    pow256((32 - i) as nat) == 256 * w,
            ;
        }
    }
    assert(result@.subrange(0, 32) =~= result@);
    assert(x@.subrange(0, 32) =~= x@);
    assert(y@.subrange(0, 32) =~= y@);
    (result, carry)
}

/// `v - r`, wrapping below zero modulo 2^256.
pub open spec fn sub_modulus_value(v: nat) -> nat {
    if v >= scalar_modulus() {
        (v - scalar_modulus()) as nat
    } else {
        (v + pow256(32) - scalar_modulus()) as nat
    }
}

/// Whether a 32-byte number is at least the scalar modulus.
pub fn ge_scalar_field(val: &[u8; 32]) -> (r: bool)
    ensures
        r == (be_val(val@) >= scalar_modulus()),
{
    proof {
        lemma_moduli();
    }
    ge_bytes32(val, &BN254_SCALAR_FIELD)
}

/// Subtract the scalar modulus, wrapping modulo 2^256 below zero.
pub fn field_sub_modulus(val: &[u8; 32]) -> (r: [u8; 32])
    ensures
        be_val(r@) == sub_modulus_value(be_val(val@)),
{
    proof {
        lemma_moduli();
    }
    let (r, borrow) = sub_bytes32(val, &BN254_SCALAR_FIELD);
    proof {
        lemma_be_bound(r@);
    }
    r
}


/// The value `field_add` computes for `x + y`: the low 256 bits, less the
/// modulus (wrapping) when the sum carried or the low bits reach it.
pub open spec fn field_add_value(x: nat, y: nat) -> nat {
    let low = (x + y) % pow256(32);
    if x + y >= pow256(32) || low >= scalar_modulus() {
        sub_modulus_value(low)
    } else {
        low
    }
}

/// Field addition of two 32-byte numbers.
pub fn field_add(a: &[u8; 32], b: &[u8; 32]) -> (r: [u8; 32])
    ensures
        be_val(r@) == field_add_value(be_val(a@), be_val(b@)),
        be_val(a@) < scalar_modulus() && be_val(b@) < scalar_modulus() ==> be_val(r@) == (be_val(a@)
            + be_val(b@)) % scalar_modulus(),
{
    proof {
        lemma_moduli();
    }
    let (result, carry) = add_bytes32(a, b);
    proof {
        lemma_be_bound(result@);
        let x = be_val(a@);
        let y = be_val(b@);
        vstd::arithmetic::div_mod::lemma_fundamental_div_mod_converse(
            (x + y) as int,
            pow256(32) as int,
            carry as int,
            be_val(result@) as int,
        );
        if x < scalar_modulus() && y < scalar_modulus() {
            if x + y >= scalar_modulus() {
                vstd::arithmetic::div_mod::lemma_fundamental_div_mod_converse(
                    (x + y) as int,
                    scalar_modulus() as int,
                    1,
                    (x + y - scalar_modulus()) as int,
                );
            } else {
                vstd::arithmetic::div_mod::lemma_small_mod((x + y) as nat, scalar_modulus());
            }
        }
    }
    if carry > 0 || ge_scalar_field(&result) {
        field_sub_modulus(&result)
    } else {
        result
    }
}

/// What `reduce_mod_scalar_field` leaves of `v`: at most four subtractions
/// of the modulus, which reduce every value below five moduli.
pub open spec fn reduce_value(v: nat) -> nat {
    if v / scalar_modulus() <= 4 {
        v % scalar_modulus()
    } else {
        (v - 4 * scalar_modulus()) as nat
    }
}

/// Reduce a 32-byte number by subtracting the modulus while it is at least
/// the modulus, at most four times.
pub fn reduce_mod_scalar_field(val: &[u8; 32]) -> (r: [u8; 32])
    ensures
        be_val(r@) == reduce_value(be_val(val@)),
{
    let ghost v = be_val(val@);
    let ghost m = scalar_modulus();
    let mut result = *val;
    let mut j: usize = 0;
    while j < 4
        invariant_except_break
            j <= 4,
            m == scalar_modulus(),
            be_val(result@) + j * m == v,
        ensures
            m == scalar_modulus(),
            (be_val(result@) < m && be_val(result@) + j * m == v && j <= 4) || (j == 4 && be_val(
                result@,
            ) + 4 * m == v),
        decreases 4 - j,
    {
        if !ge_scalar_field(&result) {
            break;
        }
        result = field_sub_modulus(&result);
        j = j + 1;
    }
    proof {
        let x = be_val(result@);
        if x < m {
            vstd::arithmetic::div_mod::lemma_fundamental_div_mod_converse(v as int, m as int, j as int, x as int);
        } else {
            assert(j == 4);
            assert(v >= 5 * m);
            vstd::arithmetic::div_mod::lemma_div_is_ordered((5 * m) as int, v as int, m as int);
            vstd::arithmetic::div_mod::lemma_div_multiples_vanish(5, m as int);
        }
    }
    result
}

/// The `y` coordinate `negate_g1` writes for `y`: `p - y`, wrapping modulo
/// 2^256 when `y` exceeds `p`.
pub open spec fn negated_y(y: nat) -> nat {
    if y <= base_modulus() {
        (base_modulus() - y) as nat
    } else {
        (base_modulus() + pow256(32) - y) as nat
    }
}

fn first_half(point: &[u8; 64]) -> (r: [u8; 32])
    ensures
        r@ == point@.subrange(0, 32),
{
    let mut out = [0u8; 32];
    let mut i: usize = 0;
    while i < 32
        invariant
            i <= 32,
            out@.len() == 32,
            forall|k: int| 0 <= k < i ==> out@[k] == point@[k],
        decreases 32 - i,
    {
        out.set(i, point[i]);
        i = i + 1;
    }
    assert(out@ =~= point@.subrange(0, 32));
    out
}

fn second_half(point: &[u8; 64]) -> (r: [u8; 32])
    ensures
        r@ == point@.subrange(32, 64),
{
    let mut out = [0u8; 32];
    let mut i: usize = 0;
    while i < 32
        invariant
            i <= 32,
            out@.len() == 32,
            forall|k: int| 0 <= k < i ==> out@[k] == point@[32 + k],
        decreases 32 - i,
    {
        out.set(i, point[32 + i]);
        i = i + 1;
    }
    assert(out@ =~= point@.subrange(32, 64));
    out
}

fn join_halves(x: &[u8; 32], y: &[u8; 32]) -> (r: [u8; 64])
    ensures
        r@ == x@ + y@,
{
    let mut out = [0u8; 64];
    let mut i: usize = 0;
    while i < 32
        invariant
            i <= 32,
            out@.len() == 64,
            forall|k: int| 0 <= k < i ==> out@[k] == x@[k] && out@[32 + k] == y@[k],
        decreases 32 - i,
    {
        out.set(i, x[i]);
        out.set(32 + i, y[i]);
        i = i + 1;
    }
    assert(out@ =~= x@ + y@);
    out
}

/// Negate a G1 point: keep `x`, replace `y` by `p - y`.
pub fn negate_g1(point: &[u8; 64]) -> (r: [u8; 64])
    ensures
        r@.subrange(0, 32) == point@.subrange(0, 32),
        be_val(r@.subrange(32, 64)) == negated_y(be_val(point@.subrange(32, 64))),
{
    proof {
        lemma_moduli();
    }
    let x = first_half(point);
    let y = second_half(point);
    let (ny, borrow) = sub_bytes32(&BN254_BASE_FIELD, &y);
    proof {
        lemma_be_bound(ny@);
        lemma_be_bound(y@);
    }
    let r = join_halves(&x, &ny);
    assert(r@.subrange(0, 32) =~= x@);
    assert(r@.subrange(32, 64) =~= ny@);
    r
}

/// `a * b` as a 64-byte number, by schoolbook multiplication.
fn mul_wide(a: &[u8; 32], b: &[u8; 32]) -> (r: [u8; 64])
    ensures
        be_val(r@) == be_val(a@) * be_val(b@),
{
    let mut product = [0u8; 64];
    assert(product@ =~= Seq::new(64, |k: int| 0u8));
    proof {
        lemma_be_zero(product@);
        assert(a@.subrange(32, 32).len() == 0);
    }
    let mut i: usize = 32;
    while i > 0
        invariant
            i <= 32,
            product@.len() == 64,
            forall|k: int| 0 <= k < i ==> product@[k] == 0,
            be_val(product@) == be_val(a@.subrange(i as int, 32)) * be_val(b@),
        decreases i,
    {
        i = i - 1;
        let ghost start = be_val(product@);
        let mut carry: u16 = 0;
        let mut j: usize = 32;
        assert(b@.subrange(32, 32).len() == 0);
        while j > 0
            invariant
                i < 32,
                j <= 32,
                product@.len() == 64,
                carry <= 255,
                forall|k: int| 0 <= k <= i ==> product@[k] == 0,
                be_val(product@) + carry * pow256((63 - i - j) as nat) == start + a@[i as int]
                    * pow256((31 - i) as nat) * be_val(b@.subrange(j as int, 32)),
            decreases j,
        {
            j = j - 1;
            let idx = i + j + 1;
            let ai = a[i] as u16;
            let bj = b[j] as u16;
            assert(ai * bj <= 65025) by (nonlinear_arith)
                requires
                    ai <= 255,
                    bj <= 255,
            ;
            let val: u16 = product[idx] as u16 + ai * bj + carry;
            let ghost old_p = product@;
            let ghost oc = carry;
            product.set(idx, (val % 256) as u8);
            carry = val / 256;
            proof {
                lemma_be_update(old_p, idx as int, (val % 256) as u8);
                let w = pow256((62 - i - j) as nat);
                assert(pow256((63 - i - j) as nat) == 256 * w);
                lemma_pow256_add((31 - i) as nat, (31 - j) as nat);
                assert(((31 - i) as nat + (31 - j) as nat) as nat == (62 - i - j) as nat);
                let bs = b@.subrange(j as int, 32);
                assert(bs.drop_first() =~= b@.subrange(j + 1, 32));
                assert(be_val(bs) == b@[j as int] * pow256((31 - j) as nat) + be_val(bs.drop_first()));
                let ap = a@[i as int] * pow256((31 - i) as nat);
                assert(ap * be_val(bs) == ap * be_val(bs.drop_first()) + ai * bj * w) by (nonlinear_arith)
                    requires
                        be_val(bs) == bj * pow256((31 - j) as nat) + be_val(bs.drop_first()),
                        ap == ai * pow256((31 - i) as nat),
                        w == pow256((31 - i) as nat) * pow256((31 - j) as nat),
                ;
                assert(be_val(product@) + carry * (256 * w) == be_val(old_p) + oc * w + ai * bj * w)
                    by (nonlinear_arith)
                    requires
                        be_val(product@) + old_p[idx as int] * w == be_val(old_p) + (val % 256) * w,
                        val == old_p[idx as int] + ai * bj + oc,
                        carry == val / 256,
                        val == 256 * (val / 256) + val % 256,
                ;
            }
        }
        let ghost before = product@;
        product.set(i, carry as u8);
        proof {
            lemma_be_update(before, i as int, carry as u8);
            let asub = a@.subrange(i as int, 32);
            assert(asub.drop_first() =~= a@.subrange(i + 1, 32));
            assert(be_val(asub) == a@[i as int] * pow256((31 - i) as nat) + be_val(asub.drop_first()));
            assert(b@.subrange(0, 32) =~= b@);
            let bb = be_val(b@);
            assert(be_val(asub) * bb == a@[i as int] * pow256((31 - i) as nat) * bb + be_val(
                asub.drop_first(),
            ) * bb) by (nonlinear_arith)
                requires
                    be_val(asub) == a@[i as int] * pow256((31 - i) as nat) + be_val(asub.drop_first()),
            ;
        }
    }
    assert(a@.subrange(0, 32) =~= a@);
    product
}

/// A string of zero bytes denotes zero.
pub proof fn lemma_be_zero(s: Seq<u8>)
    requires
        forall|k: int| 0 <= k < s.len() ==> s[k] == 0,
    ensures
        be_val(s) == 0,
    decreases s.len(),
{
    if s.len() > 0 {
        lemma_be_zero(s.drop_first());
    }
}

fn low_part(acc: &[u8; 33]) -> (r: [u8; 32])
    ensures
        r@ == acc@.subrange(1, 33),
{
    let mut out = [0u8; 32];
    let mut i: usize = 0;
    while i < 32
        invariant
            i <= 32,
            out@.len() == 32,
            forall|k: int| 0 <= k < i ==> out@[k] == acc@[k + 1],
        decreases 32 - i,
    {
        out.set(i, acc[i + 1]);
        i = i + 1;
    }
    assert(out@ =~= acc@.subrange(1, 33));
    out
}

fn set_low_part(acc: &mut [u8; 33], low: &[u8; 32])
    ensures
        final(acc)@ == seq![old(acc)@[0]] + low@,
{
    let mut i: usize = 0;
    while i < 32
        invariant
            i <= 32,
            acc@.len() == 33,
            acc@[0] == old(acc)@[0],
            forall|k: int| 0 <= k < i ==> acc@[k + 1] == low@[k],
        decreases 32 - i,
    {
        acc.set(i + 1, low[i]);
        i = i + 1;
    }
    assert(acc@ =~= seq![old(acc)@[0]] + low@);
}

/// Drop the top byte of the accumulator and append `w` at the bottom.
fn shift_in(acc: &mut [u8; 33], w: u8)
    ensures
        final(acc)@ == old(acc)@.subrange(1, 33).push(w),
{
    let mut k: usize = 0;
    while k < 32
        invariant
            k <= 32,
            acc@.len() == 33,
            forall|t: int| 0 <= t < k ==> acc@[t] == old(acc)@[t + 1],
            forall|t: int| k <= t < 33 ==> acc@[t] == old(acc)@[t],
        decreases 32 - k,
    {
        acc.set(k, acc[k + 1]);
        k = k + 1;
    }
    acc.set(32, w);
    assert(acc@ =~= old(acc)@.subrange(1, 33).push(w));
}

/// The accumulator's value: its top byte above 256 bits, then the rest.
proof fn lemma_acc_value(acc: Seq<u8>)
    requires
        acc.len() == 33,
    ensures
        be_val(acc) == acc[0] * pow256(32) + be_val(acc.subrange(1, 33)),
{
    lemma_be_split(acc, 1);
    let top = acc.subrange(0, 1);
    assert(top.drop_first().len() == 0);
    assert(be_val(top.drop_first()) == 0);
    assert(pow256(0) == 1);
    assert(top[0] == acc[0]);
    assert(be_val(top) == top[0] as nat * pow256(0) + be_val(top.drop_first()));
    assert(top[0] as nat * pow256(0) == top[0] as nat) by (nonlinear_arith)
        requires
            pow256(0) == 1,
    ;
    assert(be_val(top) == acc[0]);
}

/// `wide` modulo the scalar field, by shift-and-subtract from the top byte.
fn reduce_wide(wide: &[u8; 64]) -> (r: [u8; 32])
    ensures
        be_val(r@) == be_val(wide@) % scalar_modulus(),
{
    proof {
        lemma_moduli();
    }
    let ghost m = scalar_modulus();
    let mut acc = [0u8; 33];
    assert(acc@ =~= Seq::new(33, |k: int| 0u8));
    proof {
        lemma_be_zero(acc@);
        assert(wide@.subrange(0, 0).len() == 0);
        assert(be_val(wide@.subrange(0, 0)) == 0);
    }
    let mut b: usize = 0;
    while b < 64
        invariant
            b <= 64,
            acc@.len() == 33,
            m == scalar_modulus(),
            pow256(32) == 115792089237316195423570985008687907853269984665640564039457584007913129639936nat,
            be_val(BN254_SCALAR_FIELD@) == m,
            be_val(acc@) == be_val(wide@.subrange(0, b as int)) % m,
        decreases 64 - b,
    {
        let ghost prev = be_val(wide@.subrange(0, b as int));
        let ghost old_acc = acc@;
        proof {
            lemma_acc_value(acc@);
            assert(acc@[0] == 0);
        }
        shift_in(&mut acc, wide[b]);
        let ghost x = be_val(wide@.subrange(0, b + 1));
        proof {
            lemma_be_push(old_acc.subrange(1, 33), wide@[b as int]);
            assert(wide@.subrange(0, b + 1) =~= wide@.subrange(0, b as int).push(wide@[b as int]));
            lemma_be_push(wide@.subrange(0, b as int), wide@[b as int]);
            vstd::arithmetic::div_mod::lemma_fundamental_div_mod(prev as int, m as int);
            let q = prev as int / m as int;
            assert(x == (prev % m) * 256 + wide@[b as int] + (q * 256) * m) by (nonlinear_arith)
                requires
                    x == prev * 256 + wide@[b as int],
                    prev == m * q + prev % m,
            ;
            vstd::arithmetic::div_mod::lemma_mod_multiples_vanish(
                q * 256,
                be_val(acc@) as int,
                m as int,
            );
            assert((m * (q * 256) + be_val(acc@)) == x);
        }
        loop
            invariant
                acc@.len() == 33,
                m == scalar_modulus(),
                pow256(32) == 115792089237316195423570985008687907853269984665640564039457584007913129639936nat,
                be_val(BN254_SCALAR_FIELD@) == m,
                be_val(acc@) % m == x % m,
            ensures
                be_val(acc@) % m == x % m,
                be_val(acc@) < m,
            decreases be_val(acc@),
        {
            let ghost before = be_val(acc@);
            proof {
                lemma_acc_value(acc@);
            }
            let low = low_part(&acc);
            if acc[0] > 0 {
                let (d, borrow) = sub_bytes32(&low, &BN254_SCALAR_FIELD);
                let top = acc[0] - borrow;
                set_low_part(&mut acc, &d);
                acc.set(0, top);
                proof {
                    assert(acc@ =~= seq![top] + d@);
                    lemma_acc_value(acc@);
                    assert(acc@.subrange(1, 33) =~= d@);
                }
            } else if ge_bytes32(&low, &BN254_SCALAR_FIELD) {
                let (d, borrow) = sub_bytes32(&low, &BN254_SCALAR_FIELD);
                set_low_part(&mut acc, &d);
                proof {
                    lemma_acc_value(acc@);
                    assert(acc@.subrange(1, 33) =~= d@);
                    lemma_be_bound(d@);
                }
            } else {
                break;
            }
            proof {
                assert(be_val(acc@) + m == before);
                vstd::arithmetic::div_mod::lemma_mod_sub_multiples_vanish(before as int, m as int);
            }
        }
        proof {
            vstd::arithmetic::div_mod::lemma_small_mod(be_val(acc@), m);
        }
        b = b + 1;
    }
    proof {
        lemma_acc_value(acc@);
        assert(wide@.subrange(0, 64) =~= wide@);
        vstd::arithmetic::div_mod::lemma_mod_pos_bound(be_val(wide@) as int, m as int);
        assert(be_val(acc@) < m);
        let p32 = pow256(32);
        let top = acc@[0] as nat;
        assert(top == 0) by (nonlinear_arith)
            requires
                be_val(acc@) == top * p32 + be_val(acc@.subrange(1, 33)),
                be_val(acc@) < p32,
        ;
    }
    low_part(&acc)
}

/// Field multiplication of two 32-byte numbers.
pub fn field_mul(a: &[u8; 32], b: &[u8; 32]) -> (r: [u8; 32])
    ensures
        be_val(r@) == (be_val(a@) * be_val(b@)) % scalar_modulus(),
{
    let wide = mul_wide(a, b);
    reduce_wide(&wide)
}

/// The domain separation salt the commitment is keyed with.
pub open spec fn domain_salt() -> Seq<u8> {
    "interlink_v1_domain".spec_bytes()
}

/// The commitment value for a payload hash value, a sequence and the value
/// of the salt's digest, each step as the field operations compute it.
pub open spec fn commitment_value(payload: nat, sequence: u64, salt_digest: nat) -> nat {
    let r = scalar_modulus();
    let rc = reduce_value(salt_digest);
    let msg = reduce_value(payload);
    let w = field_add_value(msg, rc);
    let w2 = (w * w) % r;
    let w4 = (w2 * w2) % r;
    let w5 = (w4 * w) % r;
    field_add_value(w5, sequence as nat)
}

/// `sequence` as a 32-byte big-endian number: the field element of a
/// 64-bit integer.
pub fn scalar_from_u64(sequence: u64) -> (r: [u8; 32])
    ensures
        be_val(r@) == sequence,
{
    let mut out = [0u8; 32];
    let mut v: u64 = sequence;
    let mut k: usize = 0;
    assert(out@.subrange(32, 32).len() == 0);
    assert(be_val(out@.subrange(32, 32)) == 0);
    assert(pow256(0) == 1);
    assert(v * pow256(0) == v) by (nonlinear_arith)
        requires
            pow256(0) == 1,
    ;
    while k < 8
        invariant
            k <= 8,
            out@.len() == 32,
            forall|t: int| 0 <= t < 32 - k ==> out@[t] == 0,
            be_val(out@.subrange(32 - k, 32)) + v * pow256(k as nat) == sequence,
        decreases 8 - k,
    {
        let pos = 31 - k;
        let ghost old_out = out@;
        let ghost ov = v;
        out.set(pos, (v % 256) as u8);
        v = v / 256;
        proof {
            let suf = out@.subrange(pos as int, 32);
            assert(suf.drop_first() =~= old_out.subrange(pos + 1, 32));
            assert(be_val(suf) == suf[0] * pow256(k as nat) + be_val(suf.drop_first()));
            assert(pow256((k + 1) as nat) == 256 * pow256(k as nat));
            assert(be_val(suf) + v * pow256((k + 1) as nat) == sequence) by (nonlinear_arith)
                requires
                    be_val(suf) == (ov % 256) * pow256(k as nat) + be_val(suf.drop_first()),
                    be_val(suf.drop_first()) + ov * pow256(k as nat) == sequence,
                    v == ov / 256,
                    ov == 256 * (ov / 256) + ov % 256,
                    pow256((k + 1) as nat) == 256 * pow256(k as nat),
            ;
        }
        k = k + 1;
    }
    proof {
        assert(pow256(8) == 18446744073709551616nat) by {
            lemma_pow256_table();
        }
        assert(v == 0) by (nonlinear_arith)
            requires
                be_val(out@.subrange(24, 32)) + v * pow256(8) == sequence,
                pow256(8) == 18446744073709551616nat,
                sequence <= u64::MAX,
        ;
        lemma_be_split(out@, 24);
        lemma_be_zero(out@.subrange(0, 24));
    }
    out
}

/// The public input of a proof: `(msg + rc)^5 + sequence` over the scalar
/// field, where `msg` is the payload hash and `rc` the Keccak-256 digest of
/// the domain salt, each reduced by `reduce_mod_scalar_field`.
pub fn compute_commitment_on_chain(payload_hash: &[u8; 32], sequence: u64) -> (r: [u8; 32])
    ensures
        be_val(r@) == commitment_value(
            be_val(payload_hash@),
            sequence,
            be_val(keccak256_spec(domain_salt())),
        ),
{
    let rc_hash = keccak256("interlink_v1_domain".as_bytes());
    let rc = reduce_mod_scalar_field(&rc_hash);
    let msg = reduce_mod_scalar_field(payload_hash);
    let w = field_add(&msg, &rc);
    let w2 = field_mul(&w, &w);
    let w4 = field_mul(&w2, &w2);
    let w5 = field_mul(&w4, &w);
    let seq_bytes = scalar_from_u64(sequence);
    field_add(&w5, &seq_bytes)
}

/// Where both reductions are complete (the payload hash and the salt digest
/// are below five moduli), the commitment is `(msg + rc)^5 + sequence`
/// modulo r, with `msg` and `rc` the two values modulo r.
pub proof fn law_commitment_is_fifth_power_plus_sequence(payload: nat, sequence: u64, salt_digest: nat)
    requires
        payload / scalar_modulus() <= 4,
        salt_digest / scalar_modulus() <= 4,
    ensures
        ({
            let r = scalar_modulus() as int;
            let w = ((payload % scalar_modulus()) as int + (salt_digest % scalar_modulus()) as int) % r;
            commitment_value(payload, sequence, salt_digest) == (w * w * w * w * w + sequence) % r
        }),
{
    let r = scalar_modulus();
    let msg = payload % r;
    let rc = salt_digest % r;
    lemma_moduli();
    vstd::arithmetic::div_mod::lemma_mod_pos_bound(payload as int, r as int);
    vstd::arithmetic::div_mod::lemma_mod_pos_bound(salt_digest as int, r as int);
    lemma_field_add_reduced(msg, rc);
    let w = (msg + rc) % r;
    vstd::arithmetic::div_mod::lemma_mod_pos_bound((msg + rc) as int, r as int);
    let w2 = (w * w) % r;
    let w4 = (w2 * w2) % r;
    let w5 = (w4 * w) % r;
    vstd::arithmetic::div_mod::lemma_mul_mod_noop_left((w * w) as int, (w * w) as int, r as int);
    vstd::arithmetic::div_mod::lemma_mul_mod_noop_right(w2 as int, (w * w) as int, r as int);
    assert(w4 == (w * w * (w * w)) % r);
    vstd::arithmetic::div_mod::lemma_mul_mod_noop_left((w * w * (w * w)) as int, w as int, r as int);
    assert(w5 == (w * w * (w * w) * w) % r);
    assert(w * w * (w * w) * w == w * w * w * w * w) by (nonlinear_arith);
    vstd::arithmetic::div_mod::lemma_mod_pos_bound((w * w * w * w * w) as int, r as int);
    assert(sequence < r);
    lemma_field_add_reduced(w5, sequence as nat);
    vstd::arithmetic::div_mod::lemma_add_mod_noop((w * w * w * w * w) as int, sequence as int, r as int);
    vstd::arithmetic::div_mod::lemma_small_mod(sequence as nat, r);
}

/// On reduced inputs, `field_add_value` is addition modulo r.
pub proof fn lemma_field_add_reduced(x: nat, y: nat)
    requires
        x < scalar_modulus(),
        y < scalar_modulus(),
    ensures
        field_add_value(x, y) == (x + y) % scalar_modulus(),
{
    lemma_moduli();
    let r = scalar_modulus();
    vstd::arithmetic::div_mod::lemma_small_mod((x + y) as nat, pow256(32));
    if x + y >= r {
        vstd::arithmetic::div_mod::lemma_fundamental_div_mod_converse((x + y) as int, r as int, 1, (x + y - r) as int);
    } else {
        vstd::arithmetic::div_mod::lemma_small_mod((x + y) as nat, r);
    }
}

} // verus!
