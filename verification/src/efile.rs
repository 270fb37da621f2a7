//! The roles a file of the toolset can play, and their transport as a bitmask.

use crate::text::{
    chars_of, is_alphanumeric_char, lemma_without_appended_pattern, lemma_without_keeps_ending,
    lemma_without_keeps_foreign_chars, lowercase_of, remove_all, spells, without,
};
use vstd::prelude::*;

verus! {

/// The role of one file of the toolset.
///
/// `All` is the wildcard that stands for every file; `Other` is the role of
/// any file the toolset does not know. `Packet` and `Wintun` are the two
/// supporting libraries, which exist on Windows hosts only.
#[derive(Clone, Copy, Debug, PartialEq, Eq, PartialOrd, Ord, Hash, Structural)]
pub enum EFile {
    All,
    Core,
    Cli,
    Packet,
    Wintun,
    Other,
}

impl Default for EFile {
    fn default() -> (r: EFile)
        ensures
            r == EFile::All,
    {
        EFile::All
    }
}

/// Whether bit `i` of `value` is set.
pub open spec fn bit_is_set(value: u64, i: u64) -> bool {
    value & (1u64 << i) != 0
}

/// The bitmask of a set of roles: zero when the wildcard is among them,
/// otherwise the sum of one distinct bit per role, at the role's ordinal.
pub open spec fn mask_of(roles: Set<EFile>) -> u64 {
    if roles.contains(EFile::All) {
        0
    } else {
        mask_from_flags(
            roles.contains(EFile::Core),
            roles.contains(EFile::Cli),
            roles.contains(EFile::Packet),
            roles.contains(EFile::Wintun),
            roles.contains(EFile::Other),
        )
    }
}

/// The mask with the bit of each of the five concrete roles switched by a flag.
pub open spec fn mask_from_flags(core: bool, cli: bool, packet: bool, wintun: bool, other: bool) -> u64 {
    ((if core { 0x2int } else { 0 })
        + (if cli { 0x4int } else { 0 })
        + (if packet { 0x8int } else { 0 })
        + (if wintun { 0x10int } else { 0 })
        + (if other { 0x1_0000_0000int } else { 0 })) as u64
}

/// The role that a bit position stands for on a host: the role with that
/// ordinal where the host knows one, `Other` for every other position.
pub open spec fn role_at(position: u8, windows: bool) -> EFile {
    if position == 0 {
        EFile::All
    } else if position == 1 {
        EFile::Core
    } else if position == 2 {
        EFile::Cli
    } else if position == 3 && windows {
        EFile::Packet
    } else if position == 4 && windows {
        EFile::Wintun
    } else {
        EFile::Other
    }
}

/// The roles of the bits of `value` below position `n`, lowest bit first.
pub open spec fn decode_below(value: u64, n: nat, windows: bool) -> Seq<EFile>
    decreases n,
{
    if n == 0 {
        Seq::empty()
    } else {
        let rest = decode_below(value, (n - 1) as nat, windows);
        if bit_is_set(value, (n - 1) as u64) {
            rest.push(role_at((n - 1) as u8, windows))
        } else {
            rest
        }
    }
}

/// What a bitmask decodes to: the wildcard alone for zero, otherwise the
/// role of every set bit, lowest bit first.
pub open spec fn decode_mask(value: u64, windows: bool) -> Seq<EFile> {
    if value == 0 {
        seq![EFile::All]
    } else {
        decode_below(value, 64, windows)
    }
}

/// Whether a host can name `role` in a bitmask and get it back.
pub open spec fn representable(role: EFile, windows: bool) -> bool {
    match role {
        EFile::Packet | EFile::Wintun => windows,
        _ => true,
    }
}

/// The base name of the primary executable.
pub open spec fn core_name() -> Seq<char> {
    seq!['e', 'a', 's', 'y', 't', 'i', 'e', 'r', '-', 'c', 'o', 'r', 'e']
}

/// The base name of the command-line executable.
pub open spec fn cli_name() -> Seq<char> {
    seq!['e', 'a', 's', 'y', 't', 'i', 'e', 'r', '-', 'c', 'l', 'i']
}

/// The base name of the packet library.
pub open spec fn packet_name() -> Seq<char> {
    seq!['p', 'a', 'c', 'k', 'e', 't']
}

/// The base name of the tunnel library.
pub open spec fn wintun_name() -> Seq<char> {
    seq!['w', 'i', 'n', 't', 'u', 'n']
}

/// The extension of an executable.
pub open spec fn exe_extension() -> Seq<char> {
    seq!['.', 'e', 'x', 'e']
}

/// The extension of a library.
pub open spec fn dll_extension() -> Seq<char> {
    seq!['.', 'd', 'l', 'l']
}

/// The role that a base name stands for on a host. The two library names
/// stand for their roles on Windows only.
pub open spec fn known_role(base: Seq<char>, windows: bool) -> EFile {
    if windows && base == packet_name() {
        EFile::Packet
    } else if windows && base == wintun_name() {
        EFile::Wintun
    } else if base == core_name() {
        EFile::Core
    } else if base == cli_name() {
        EFile::Cli
    } else {
        EFile::Other
    }
}

/// The characters a base name may hold: letters, digits and the hyphen.
pub open spec fn allowed_char(c: char) -> bool {
    is_alphanumeric_char(c) || c == '-'
}

/// A base name is acceptable when it is not empty and holds allowed
/// characters only.
pub open spec fn acceptable_base(base: Seq<char>) -> bool {
    base.len() > 0 && forall|i: int| 0 <= i < base.len() ==> allowed_char(#[trigger] base[i])
}

/// The base name in a lower-case file name: the name with the executable
/// extension taken out, then the library extension.
pub open spec fn base_of_lowered(lowered: Seq<char>) -> Seq<char> {
    without(without(lowered, exe_extension()), dll_extension())
}

/// The role of a lower-case file name on a host: the role of its base name
/// where that is acceptable, `Other` where it is not.
pub open spec fn role_of_lowered(lowered: Seq<char>, windows: bool) -> EFile {
    if acceptable_base(base_of_lowered(lowered)) {
        known_role(base_of_lowered(lowered), windows)
    } else {
        EFile::Other
    }
}

/// The role of a file name on a host: that of its lower-case form.
pub open spec fn role_of_name(name: Seq<char>, windows: bool) -> EFile {
    role_of_lowered(lowercase_of(name), windows)
}

proof fn lemma_set_bit(core: bool, cli: bool, packet: bool, wintun: bool, other: bool)
    ensures
        mask_from_flags(core, cli, packet, wintun, other) | (1u64 << 1u64) == mask_from_flags(
            true,
            cli,
            packet,
            wintun,
            other,
        ),
        mask_from_flags(core, cli, packet, wintun, other) | (1u64 << 2u64) == mask_from_flags(
            core,
            true,
            packet,
            wintun,
            other,
        ),
        mask_from_flags(core, cli, packet, wintun, other) | (1u64 << 3u64) == mask_from_flags(
            core,
            cli,
            true,
            wintun,
            other,
        ),
        mask_from_flags(core, cli, packet, wintun, other) | (1u64 << 4u64) == mask_from_flags(
            core,
            cli,
            packet,
            true,
            other,
        ),
        mask_from_flags(core, cli, packet, wintun, other) | (1u64 << 32u64) == mask_from_flags(
            core,
            cli,
            packet,
            wintun,
            true,
        ),
{
    let c: u64 = if core { 0x2 } else { 0 };
    let l: u64 = if cli { 0x4 } else { 0 };
    let p: u64 = if packet { 0x8 } else { 0 };
    let w: u64 = if wintun { 0x10 } else { 0 };
    let o: u64 = if other { 0x1_0000_0000 } else { 0 };
    let m: u64 = mask_from_flags(core, cli, packet, wintun, other);
    assert(m == c + l + p + w + o);
    assert((c == 0 || c == 2) && (l == 0 || l == 4) && (p == 0 || p == 8) && (w == 0 || w == 16)
        && (o == 0 || o == 0x1_0000_0000));
    assert({
        &&& (c + l + p + w + o) as u64 | (1u64 << 1u64) == (2 + l + p + w + o) as u64
        &&& (c + l + p + w + o) as u64 | (1u64 << 2u64) == (c + 4 + p + w + o) as u64
        &&& (c + l + p + w + o) as u64 | (1u64 << 3u64) == (c + l + 8 + w + o) as u64
        &&& (c + l + p + w + o) as u64 | (1u64 << 4u64) == (c + l + p + 16 + o) as u64
        &&& (c + l + p + w + o) as u64 | (1u64 << 32u64) == (c + l + p + w + 0x1_0000_0000) as u64
    }) by (bit_vector)
        requires
            (c == 0 || c == 2) && (l == 0 || l == 4) && (p == 0 || p == 8) && (w == 0 || w == 16)
                && (o == 0 || o == 0x1_0000_0000),
    ;
}

proof fn lemma_bits_of_mask(core: bool, cli: bool, packet: bool, wintun: bool, other: bool, i: u64)
    requires
        i < 64,
    ensures
        bit_is_set(mask_from_flags(core, cli, packet, wintun, other), i) <==> (i == 1 && core) || (i
            == 2 && cli) || (i == 3 && packet) || (i == 4 && wintun) || (i == 32 && other),
{
    let c: u64 = if core { 0x2 } else { 0 };
    let l: u64 = if cli { 0x4 } else { 0 };
    let p: u64 = if packet { 0x8 } else { 0 };
    let w: u64 = if wintun { 0x10 } else { 0 };
    let o: u64 = if other { 0x1_0000_0000 } else { 0 };
    let m: u64 = mask_from_flags(core, cli, packet, wintun, other);
    assert(m == c + l + p + w + o);
    assert(((c + l + p + w + o) as u64 & (1u64 << i) != 0) <==> (i == 1 && c == 2) || (i == 2 && l
        == 4) || (i == 3 && p == 8) || (i == 4 && w == 16) || (i == 32 && o == 0x1_0000_0000))
        by (bit_vector)
        requires
            i < 64,
            (c == 0 || c == 2) && (l == 0 || l == 4) && (p == 0 || p == 8) && (w == 0 || w == 16)
                && (o == 0 || o == 0x1_0000_0000),
    ;
}

/// A role is among the roles decoded from the low `n` bits exactly when one
/// of those bits is set at a position that stands for the role.
pub proof fn lemma_decode_below_contains(value: u64, n: nat, windows: bool, role: EFile)
    requires
        n <= 64,
    ensures
        decode_below(value, n, windows).contains(role) <==> exists|i: int|
            0 <= i < n && bit_is_set(value, i as u64) && #[trigger] role_at(i as u8, windows)
                == role,
    decreases n,
{
    if n > 0 {
        let rest = decode_below(value, (n - 1) as nat, windows);
        let last = role_at((n - 1) as u8, windows);
        lemma_decode_below_contains(value, (n - 1) as nat, windows, role);
        if bit_is_set(value, (n - 1) as u64) {
            assert(decode_below(value, n, windows) == rest.push(last));
            assert forall|x: EFile| rest.push(last).contains(x) <==> (rest.contains(x) || x == last) by {
                if rest.contains(x) {
                    let j = choose|j: int| 0 <= j < rest.len() && rest[j] == x;
                    assert(rest.push(last)[j] == x);
                }
                if x == last {
                    assert(rest.push(last)[rest.len() as int] == x);
                }
            }
        }
        if decode_below(value, n, windows).contains(role) {
            if rest.contains(role) {
                let i = choose|i: int|
                    0 <= i < n - 1 && bit_is_set(value, i as u64) && #[trigger] role_at(
                        i as u8,
                        windows,
                    ) == role;
                assert(0 <= i < n && bit_is_set(value, i as u64) && role_at(i as u8, windows)
                    == role);
            } else {
                assert(role_at((n - 1) as u8, windows) == role);
            }
        }
    }
}

/// The wildcard absorbs every other role: a set that holds it packs to
/// zero, whatever else it holds.
pub proof fn lemma_wildcard_packs_to_zero(roles: Set<EFile>)
    ensures
        mask_of(roles.insert(EFile::All)) == 0,
{
}

/// Packing and unpacking give back the same roles: for a non-empty set of
/// roles without the wildcard, each one that the host can name, the roles
/// decoded from the set's mask are exactly the set.
pub proof fn lemma_decode_of_mask(roles: Set<EFile>, windows: bool)
    requires
        !roles.contains(EFile::All),
        exists|role: EFile| roles.contains(role),
        forall|role: EFile| roles.contains(role) ==> representable(role, windows),
    ensures
        decode_mask(mask_of(roles), windows).to_set() == roles,
{
    let c = roles.contains(EFile::Core);
    let l = roles.contains(EFile::Cli);
    let p = roles.contains(EFile::Packet);
    let w = roles.contains(EFile::Wintun);
    let o = roles.contains(EFile::Other);
    let m = mask_of(roles);
    let witness = choose|role: EFile| roles.contains(role);
    assert(c || l || p || w || o) by {
        match witness {
            EFile::All => {},
            EFile::Core => {},
            EFile::Cli => {},
            EFile::Packet => {},
            EFile::Wintun => {},
            EFile::Other => {},
        }
    }
    assert(m != 0);
    let decoded = decode_below(m, 64, windows);
    assert forall|role: EFile| decoded.to_set().contains(role) == roles.contains(role) by {
        lemma_decode_below_contains(m, 64, windows, role);
        if decoded.contains(role) {
            let i = choose|i: int|
                0 <= i < 64 && bit_is_set(m, i as u64) && #[trigger] role_at(i as u8, windows)
                    == role;
            lemma_bits_of_mask(c, l, p, w, o, i as u64);
            if p {
                assert(representable(EFile::Packet, windows));
            }
            if w {
                assert(representable(EFile::Wintun, windows));
            }
        }
        if roles.contains(role) {
            assert(representable(role, windows));
            let i: int = role.spec_ordinal() as int;
            lemma_bits_of_mask(c, l, p, w, o, i as u64);
            assert(bit_is_set(m, i as u64) && role_at(i as u8, windows) == role);
        }
    }
    assert(decoded.to_set() =~= roles);
}

/// Case makes no difference to the role of a file name: names with the
/// same lower-case form have the same role.
pub proof fn lemma_role_ignores_case(a: Seq<char>, b: Seq<char>, windows: bool)
    requires
        lowercase_of(a) == lowercase_of(b),
    ensures
        role_of_name(a, windows) == role_of_name(b, windows),
{
}

/// An extension makes no difference to the role of a file name: a
/// lower-case name has the role that it has with `.exe` or `.dll` behind
/// it.
pub proof fn lemma_role_ignores_extension(lowered: Seq<char>, windows: bool)
    ensures
        role_of_lowered(lowered + exe_extension(), windows) == role_of_lowered(lowered, windows),
        role_of_lowered(lowered + dll_extension(), windows) == role_of_lowered(lowered, windows),
{
    let exe = exe_extension();
    let dll = dll_extension();
    lemma_without_appended_pattern(lowered, exe);
    assert(!exe.is_prefix_of(dll)) by {
        if exe.is_prefix_of(dll) {
            assert(dll.subrange(0, 4)[1] == exe[1]);
        }
    }
    lemma_without_keeps_ending(lowered, exe, dll);
    lemma_without_appended_pattern(without(lowered, exe), dll);
}

/// A name with a character that is not allowed is rejected: where the
/// lower-case form of a name holds a character that is neither a letter,
/// a digit or a hyphen, nor a character of the two extensions, the name
/// has the role `Other`.
pub proof fn lemma_disallowed_char_is_rejected(lowered: Seq<char>, c: char, windows: bool)
    requires
        lowered.contains(c),
        !allowed_char(c),
        !exe_extension().contains(c),
        !dll_extension().contains(c),
    ensures
        role_of_lowered(lowered, windows) == EFile::Other,
{
    lemma_without_keeps_foreign_chars(lowered, exe_extension(), c);
    lemma_without_keeps_foreign_chars(without(lowered, exe_extension()), dll_extension(), c);
    let base = base_of_lowered(lowered);
    let i = choose|i: int| 0 <= i < base.len() && base[i] == c;
    assert(!allowed_char(base[i]));
}

/// A role that a host knows by name is the role of exactly one base name,
/// and no base name has the wildcard as its role.
pub proof fn lemma_known_roles_have_one_name(base: Seq<char>, windows: bool)
    ensures
        known_role(base, windows) == EFile::Core <==> base == core_name(),
        known_role(base, windows) == EFile::Cli <==> base == cli_name(),
        known_role(base, windows) == EFile::Packet <==> windows && base == packet_name(),
        known_role(base, windows) == EFile::Wintun <==> windows && base == wintun_name(),
        known_role(base, windows) != EFile::All,
{
    assert(core_name().len() == 13 && cli_name().len() == 12);
    assert(packet_name()[0] == 'p' && wintun_name()[0] == 'w' && core_name()[0] == 'e');
}

impl EFile {
    /// The bit position that the role occupies in a bitmask.
    pub open spec fn spec_ordinal(self) -> u8 {
        match self {
            EFile::All => 0,
            EFile::Core => 1,
            EFile::Cli => 2,
            EFile::Packet => 3,
            EFile::Wintun => 4,
            EFile::Other => 32,
        }
    }

    /// The bit position that the role occupies in a bitmask.
    #[verifier::when_used_as_spec(spec_ordinal)]
    pub fn ordinal(self) -> (r: u8)
        ensures
            r == self.spec_ordinal(),
    {
        match self {
            EFile::All => 0,
            EFile::Core => 1,
            EFile::Cli => 2,
            EFile::Packet => 3,
            EFile::Wintun => 4,
            EFile::Other => 32,
        }
    }

    /// Whether `role` occurs in `list`.
    pub fn contains(list: &Vec<EFile>, role: EFile) -> (r: bool)
        ensures
            r == list@.contains(role),
    {
        let mut i: usize = 0;
        while i < list.len()
            invariant
                i <= list.len(),
                forall|j: int| 0 <= j < i ==> list@[j] != role,
            decreases list.len() - i,
        {
            if list[i] == role {
                return true;
            }
            i = i + 1;
        }
        false
    }

    /// Packs a list of roles into a bitmask. Repeated roles count once, and
    /// a list that holds the wildcard packs to zero whatever else it holds.
    pub fn to_u64(list: Vec<EFile>) -> (r: u64)
        ensures
            r == mask_of(list@.to_set()),
            list@.contains(EFile::All) ==> r == 0,
    {
        if EFile::contains(&list, EFile::All) {
            return 0;
        }
        let mut result: u64 = 0;
        let mut i: usize = 0;
        assert(list@.subrange(0, 0).to_set() =~= Set::<EFile>::empty());
        while i < list.len()
            invariant
                i <= list.len(),
                !list@.contains(EFile::All),
                result == mask_of(list@.subrange(0, i as int).to_set()),
            decreases list.len() - i,
        {
            let item = list[i];
            let ghost before = list@.subrange(0, i as int).to_set();
            let ghost after = list@.subrange(0, i + 1).to_set();
            proof {
                assert(list@.contains(item));
                assert(list@.subrange(0, i + 1) =~= list@.subrange(0, i as int).push(item));
                list@.subrange(0, i as int).lemma_push_to_set_commute(item);
                assert(after =~= before.insert(item));
                assert(!before.contains(EFile::All)) by {
                    if before.contains(EFile::All) {
                        let j = choose|j: int|
                            0 <= j < i && list@.subrange(0, i as int)[j] == EFile::All;
                        assert(list@[j] == EFile::All);
                    }
                }
                lemma_set_bit(
                    before.contains(EFile::Core),
                    before.contains(EFile::Cli),
                    before.contains(EFile::Packet),
                    before.contains(EFile::Wintun),
                    before.contains(EFile::Other),
                );
            }
            let shift: u64 = item.ordinal() as u64;
            assert(1u64 << shift == 1u64 << (item.spec_ordinal() as u64));
            result = result | (1u64 << shift);
            i = i + 1;
        }
        assert(list@.subrange(0, list@.len() as int) =~= list@);
        result
    }

    /// The role that a bit position stands for on a host.
    pub fn from_u8(value: u8, windows: bool) -> (r: EFile)
        ensures
            r == role_at(value, windows),
    {
        if value == 0 {
            EFile::All
        } else if value == 1 {
            EFile::Core
        } else if value == 2 {
            EFile::Cli
        } else if value == 3 && windows {
            EFile::Packet
        } else if value == 4 && windows {
            EFile::Wintun
        } else {
            EFile::Other
        }
    }

    /// The role that a base name stands for on a host.
    pub fn from_base_name(base: &Vec<char>, windows: bool) -> (r: EFile)
        ensures
            r == known_role(base@, windows),
    {
        proof {
            reveal_strlit("packet");
            reveal_strlit("wintun");
            reveal_strlit("easytier-core");
            reveal_strlit("easytier-cli");
            assert("packet"@ =~= packet_name());
            assert("wintun"@ =~= wintun_name());
            assert("easytier-core"@ =~= core_name());
            assert("easytier-cli"@ =~= cli_name());
        }
        if windows && spells(base, "packet") {
            EFile::Packet
        } else if windows && spells(base, "wintun") {
            EFile::Wintun
        } else if spells(base, "easytier-core") {
            EFile::Core
        } else if spells(base, "easytier-cli") {
            EFile::Cli
        } else {
            EFile::Other
        }
    }

    /// Whether a base name is not empty and holds only letters, digits and
    /// hyphens.
    pub fn is_acceptable_base(base: &Vec<char>) -> (r: bool)
        ensures
            r == acceptable_base(base@),
    {
        if base.len() == 0 {
            return false;
        }
        let mut i: usize = 0;
        while i < base.len()
            invariant
                i <= base.len(),
                forall|j: int| 0 <= j < i ==> allowed_char(#[trigger] base@[j]),
            decreases base.len() - i,
        {
            let c = base[i];
            if !(c.is_alphanumeric() || c == '-') {
                return false;
            }
            i = i + 1;
        }
        true
    }

    /// The role of a file name on a host. Case and the extensions `.exe` and
    /// `.dll` make no difference; a name that is empty without them, or that
    /// holds anything but letters, digits and hyphens, has the role `Other`.
    pub fn from_str(value: &str, windows: bool) -> (r: EFile)
        ensures
            r == role_of_name(value@, windows),
    {
        proof {
            reveal_strlit(".exe");
            reveal_strlit(".dll");
            assert(".exe"@ =~= exe_extension());
            assert(".dll"@ =~= dll_extension());
        }
        let lowered = value.to_lowercase();
        let chars = chars_of(lowered.as_str());
        let without_exe = remove_all(&chars, &chars_of(".exe"));
        let base = remove_all(&without_exe, &chars_of(".dll"));
        if !EFile::is_acceptable_base(&base) {
            return EFile::Other;
        }
        EFile::from_base_name(&base, windows)
    }

    /// Unpacks a bitmask into roles, lowest bit first. Zero unpacks to the
    /// wildcard alone.
    pub fn from_u64(value: u64, windows: bool) -> (r: Vec<EFile>)
        ensures
            r@ == decode_mask(value, windows),
            value == 0 ==> r@ == seq![EFile::All],
    {
        let mut result: Vec<EFile> = Vec::new();
        if value == 0 {
            result.push(EFile::All);
            return result;
        }
        let mut i: u8 = 0;
        while i < 64
            invariant
                i <= 64,
                result@ == decode_below(value, i as nat, windows),
            decreases 64 - i,
        {
            if value & (1u64 << (i as u64)) != 0 {
                result.push(EFile::from_u8(i, windows));
            }
            i = i + 1;
        }
        result
    }
}

} // verus!
