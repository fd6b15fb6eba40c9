//! Which network interfaces serve, and which address is bound to.

use vstd::prelude::*;

use crate::address::Ipv4Addr;
use crate::model::{ascii_lower, NetworkInterfaceView};
use crate::network::{begins_with, bind_address, interface_before, is_suitable, text_before};
use crate::value::ascii_lower_text;

verus! {

/// An interface serves for its name and its address. Addresses of this machine, of none, and those
/// that a machine gives itself never serve, whatever the name; all others serve under a name that
/// does not begin as the names of tunnels, loopbacks and the like do.
pub proof fn law_suitable_addresses(name: Seq<char>, addr: Ipv4Addr)
    ensures
        addr.a == 127 ==> !is_suitable(name, addr),
        addr.a == 169 && addr.b == 254 ==> !is_suitable(name, addr),
        addr.a == 0 && addr.b == 0 && addr.c == 0 && addr.d == 0 ==> !is_suitable(name, addr),
        addr.a != 127 && !(addr.a == 169 && addr.b == 254) && !(addr.a == 0 && addr.b == 0 && addr.c
            == 0 && addr.d == 0) ==> is_suitable(name, addr) == is_suitable(
            name,
            Ipv4Addr { a: 192, b: 168, c: 1, d: 1 },
        ),
{
}

/// The names that do not serve begin, in whatever case, with one of nine words; any other name
/// serves with an address that does.
pub proof fn law_suitable_names(name: Seq<char>, addr: Ipv4Addr)
    requires
        addr.a == 10,
    ensures
        is_suitable(name, addr) <==> {
            &&& !begins(name, seq!['u', 't', 'u', 'n'])
            &&& !begins(name, seq!['p', 'p', 'p'])
            &&& !begins(name, seq!['i', 'p', 's', 'e', 'c'])
            &&& !begins(name, seq!['g', 'i', 'f'])
            &&& !begins(name, seq!['s', 't', 'f'])
            &&& !begins(name, seq!['a', 'w', 'd', 'l'])
            &&& !begins(name, seq!['l', 'l', 'w'])
            &&& !begins(name, seq!['l', 'o'])
            &&& !begins(name, seq!['a', 'p'])
        },
{
    reveal_strlit("utun");
    reveal_strlit("ppp");
    reveal_strlit("ipsec");
    reveal_strlit("gif");
    reveal_strlit("stf");
    reveal_strlit("awdl");
    reveal_strlit("llw");
    reveal_strlit("lo");
    reveal_strlit("ap");
    assert("utun"@ =~= seq!['u', 't', 'u', 'n']);
    assert("ppp"@ =~= seq!['p', 'p', 'p']);
    assert("ipsec"@ =~= seq!['i', 'p', 's', 'e', 'c']);
    assert("gif"@ =~= seq!['g', 'i', 'f']);
    assert("stf"@ =~= seq!['s', 't', 'f']);
    assert("awdl"@ =~= seq!['a', 'w', 'd', 'l']);
    assert("llw"@ =~= seq!['l', 'l', 'w']);
    assert("lo"@ =~= seq!['l', 'o']);
    assert("ap"@ =~= seq!['a', 'p']);
    lemma_begins(name, "utun"@);
    lemma_begins(name, "ppp"@);
    lemma_begins(name, "ipsec"@);
    lemma_begins(name, "gif"@);
    lemma_begins(name, "stf"@);
    lemma_begins(name, "awdl"@);
    lemma_begins(name, "llw"@);
    lemma_begins(name, "lo"@);
    lemma_begins(name, "ap"@);
}

/// Whether a character is a small letter, or that letter in capitals.
pub open spec fn is_letter(character: char, letter: char) -> bool {
    character == letter || (0x41 <= character as u32 <= 0x5a && character as u32 + 0x20
        == letter as u32)
}

/// Whether a name begins with a word of small letters, in whatever case.
pub open spec fn begins(name: Seq<char>, word: Seq<char>) -> bool {
    word.len() <= name.len() && forall|i: int|
        0 <= i < word.len() ==> is_letter(#[trigger] name[i], word[i])
}

proof fn lemma_letter(character: char, letter: char)
    requires
        'a' <= letter <= 'z',
    ensures
        is_letter(character, letter) <==> ascii_lower(character) == letter,
{
}

proof fn lemma_begins(name: Seq<char>, word: Seq<char>)
    requires
        forall|i: int| 0 <= i < word.len() ==> 'a' <= #[trigger] word[i] <= 'z',
    ensures
        begins_with(ascii_lower_text(name), word) <==> begins(name, word),
{
    let lower = ascii_lower_text(name);
    if begins_with(lower, word) {
        assert forall|i: int| 0 <= i < word.len() implies is_letter(
            #[trigger] name[i],
            word[i],
        ) by {
            assert(lower.take(word.len() as int)[i] == word[i]);
            lemma_letter(name[i], word[i]);
        }
    }
    if begins(name, word) {
        assert forall|i: int| 0 <= i < word.len() implies lower.take(word.len() as int)[i]
            == word[i] by {
            assert(is_letter(name[i], word[i]));
            lemma_letter(name[i], word[i]);
        }
        assert(lower.take(word.len() as int) =~= word);
    }
}

/// The address that is bound to: the selected one, whatever the interfaces; else that of the first
/// interface; else none in particular.
pub proof fn law_bound_address(selected: Ipv4Addr, interfaces: Seq<NetworkInterfaceView>)
    ensures
        bind_address(Some(selected), interfaces) == selected,
        interfaces.len() > 0 ==> bind_address(None, interfaces) == interfaces[0].addr,
        bind_address(None, Seq::empty()) == (Ipv4Addr { a: 0, b: 0, c: 0, d: 0 }),
{
}

/// Interfaces are ordered by the first character in which their names differ, a name that ends
/// first coming first, and under one name by their addresses, the first number counting most.
pub proof fn law_order_of_interfaces(
    shared: Seq<char>,
    left: Seq<char>,
    right: Seq<char>,
    low: Ipv4Addr,
    high: Ipv4Addr,
)
    requires
        left.len() == 0 || (right.len() > 0 && (left[0] as int) < (right[0] as int)),
        right.len() > 0,
    ensures
        interface_before(
            NetworkInterfaceView { name: shared + left, addr: high },
            NetworkInterfaceView { name: shared + right, addr: low },
        ),
        !interface_before(
            NetworkInterfaceView { name: shared + right, addr: low },
            NetworkInterfaceView { name: shared + left, addr: high },
        ),
        low.a < high.a || (low.a == high.a && (low.b < high.b || (low.b == high.b && (low.c < high.c
            || (low.c == high.c && low.d < high.d))))) ==> interface_before(
            NetworkInterfaceView { name: shared, addr: low },
            NetworkInterfaceView { name: shared, addr: high },
        ) && !interface_before(
            NetworkInterfaceView { name: shared, addr: high },
            NetworkInterfaceView { name: shared, addr: low },
        ),
{
    lemma_shared_start(shared, left, right);
    lemma_shared_start(shared, right, left);
    lemma_shared_start(shared, Seq::empty(), Seq::empty());
    assert(shared + Seq::<char>::empty() =~= shared);
    assert(text_before(left, right));
    assert(!text_before(right, left));
    if shared + left == shared + right {
        assert((shared + left).len() == (shared + right).len());
        assert((shared + left)[shared.len() as int] == left[0]);
        assert((shared + right)[shared.len() as int] == right[0]);
    }
}

proof fn lemma_shared_start(shared: Seq<char>, left: Seq<char>, right: Seq<char>)
    ensures
        text_before(shared + left, shared + right) == text_before(left, right),
    decreases shared.len(),
{
    if shared.len() > 0 {
        assert((shared + left).skip(1) =~= shared.skip(1) + left);
        assert((shared + right).skip(1) =~= shared.skip(1) + right);
        lemma_shared_start(shared.skip(1), left, right);
    } else {
        assert(shared + left =~= left);
        assert(shared + right =~= right);
    }
}

} // verus!
