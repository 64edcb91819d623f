//! The initial stack of a user program.

use vstd::prelude::*;
use vstd::utf8::encode_utf8;
use crate::auxv::{contains_kind, has_kind, AuxEntry, AT_EXECFN, AT_NULL, AT_RANDOM};
use crate::words::{
    law_word_is_a_number, law_word_round_trip, lemma_number_in_part, lemma_word_at,
    lemma_words_len, number_at, push_word, word_bytes, word_value, words_bytes,
};

verus! {

/// The bytes of each string.
pub open spec fn utf8_all(list: Seq<String>) -> Seq<Seq<u8>> {
    list.map_values(|s: String| encode_utf8(s@))
}

/// The strings of `list`, each with a terminating zero, the last one first.
pub open spec fn cstrings(list: Seq<Seq<u8>>) -> Seq<u8>
    decreases list.len(),
{
    if list.len() == 0 {
        Seq::empty()
    } else {
        list.last() + seq![0u8] + cstrings(list.drop_last())
    }
}

/// The bytes that the `AT_RANDOM` entry points to.
pub open spec fn random_bytes() -> Seq<u8> {
    seq![
        0x30u8, 0x31u8, 0x32u8, 0x33u8, 0x34u8, 0x35u8, 0x36u8, 0x37u8,
        0x38u8, 0x39u8, 0x61u8, 0x62u8, 0x63u8, 0x64u8, 0x65u8, 0x66u8,
    ]
}

/// `n` zero bytes.
pub open spec fn zeros(n: nat) -> Seq<u8> {
    Seq::new(n, |i: int| 0u8)
}

/// The string area at the top of the stack, lowest address first: the
/// arguments, the environment, the random bytes. Of two arguments, as of two
/// environment strings, the later one has the lower address.
pub open spec fn string_area(args: Seq<Seq<u8>>, envs: Seq<Seq<u8>>) -> Seq<u8> {
    cstrings(args) + cstrings(envs) + random_bytes()
}

/// The address of the random bytes on a stack that ends at `sp`.
pub open spec fn random_addr(sp: int) -> int {
    sp - 16
}

/// The address of the environment string `i`.
pub open spec fn env_addr(envs: Seq<Seq<u8>>, sp: int, i: int) -> int {
    random_addr(sp) - cstrings(envs.take(i + 1)).len()
}

/// The address of the argument string `i`.
pub open spec fn arg_addr(args: Seq<Seq<u8>>, envs: Seq<Seq<u8>>, sp: int, i: int) -> int {
    random_addr(sp) - cstrings(envs).len() - cstrings(args.take(i + 1)).len()
}

/// The auxiliary vector as the program sees it: the given entries, then
/// `AT_RANDOM` and `AT_EXECFN` unless they are among these, then `AT_NULL`.
pub open spec fn full_auxv(auxv: Seq<AuxEntry>, random: usize, execfn: usize) -> Seq<AuxEntry> {
    let random_entry = if has_kind(auxv, AT_RANDOM) {
        Seq::empty()
    } else {
        seq![AuxEntry { kind: AT_RANDOM, value: random }]
    };
    let execfn_entry = if has_kind(auxv, AT_EXECFN) {
        Seq::empty()
    } else {
        seq![AuxEntry { kind: AT_EXECFN, value: execfn }]
    };
    auxv + random_entry + execfn_entry + seq![AuxEntry { kind: AT_NULL, value: 0 }]
}

/// The two words of each entry.
pub open spec fn aux_words(auxv: Seq<AuxEntry>) -> Seq<u64> {
    Seq::new(
        2 * auxv.len(),
        |i: int|
            if i % 2 == 0 {
                auxv[i / 2].kind as u64
            } else {
                auxv[i / 2].value as u64
            },
    )
}

/// The words at the stack pointer: the argument count, the addresses of the
/// arguments, a null word, the addresses of the environment strings, a null
/// word, and the auxiliary vector.
pub open spec fn stack_words(
    args: Seq<Seq<u8>>,
    envs: Seq<Seq<u8>>,
    auxv: Seq<AuxEntry>,
    sp: int,
) -> Seq<u64> {
    let argv = Seq::new(args.len(), |i: int| arg_addr(args, envs, sp, i) as u64);
    let envp = Seq::new(envs.len(), |i: int| env_addr(envs, sp, i) as u64);
    let execfn = if args.len() > 0 {
        arg_addr(args, envs, sp, 0) as usize
    } else {
        0
    };
    seq![args.len() as u64] + argv + seq![0u64] + envp + seq![0u64] + aux_words(
        full_auxv(auxv, random_addr(sp) as usize, execfn),
    )
}

/// The zero bytes between the words and the string area: a null word, what
/// brings its address to a multiple of sixteen, and one more word where the
/// number of pointer words is odd.
pub open spec fn padding_len(args: Seq<Seq<u8>>, envs: Seq<Seq<u8>>, sp: int) -> nat {
    let fill = (sp - string_area(args, envs).len() - 8) % 16;
    let odd: int = if (args.len() + envs.len() + 3) % 2 != 0 {
        8
    } else {
        0
    };
    (8 + fill + odd) as nat
}

/// The initial contents of the stack that ends at `sp`, lowest address first.
pub open spec fn stack_image(
    args: Seq<Seq<u8>>,
    envs: Seq<Seq<u8>>,
    auxv: Seq<AuxEntry>,
    sp: int,
) -> Seq<u8> {
    words_bytes(stack_words(args, envs, auxv, sp)) + zeros(padding_len(args, envs, sp))
        + string_area(args, envs)
}

/// One more string makes the strings longer by its length and its terminator.
proof fn lemma_cstrings_step(list: Seq<Seq<u8>>, i: int)
    requires
        0 <= i < list.len(),
    ensures
        cstrings(list.take(i + 1)) == list[i] + seq![0u8] + cstrings(list.take(i)),
{
    let t = list.take(i + 1);
    assert(t.last() == list[i]);
    assert(t.drop_last() =~= list.take(i));
}

/// Fewer strings are not longer.
proof fn lemma_cstrings_mono(list: Seq<Seq<u8>>, i: int)
    requires
        0 <= i <= list.len(),
    ensures
        cstrings(list.take(i)).len() <= cstrings(list).len(),
    decreases list.len() - i,
{
    if i < list.len() {
        lemma_cstrings_step(list, i);
        lemma_cstrings_mono(list, i + 1);
    } else {
        assert(list.take(i) =~= list);
    }
}

/// Appends the strings of `list`, the last one first.
fn push_cstrings(out: &mut Vec<u8>, list: &Vec<String>)
    ensures
        final(out)@ == old(out)@ + cstrings(utf8_all(list@)),
{
    let ghost strs = utf8_all(list@);
    let ghost before = out@;
    let mut j: usize = list.len();
    proof {
        assert(strs.take(j as int) =~= strs);
    }
    while j > 0
        invariant
            j <= list@.len(),
            strs == utf8_all(list@),
            out@ + cstrings(strs.take(j as int)) == before + cstrings(strs),
        decreases j,
    {
        j = j - 1;
        let ghost prev = out@;
        let s = list[j].as_str().as_bytes();
        proof {
            lemma_cstrings_step(strs, j as int);
            assert(s@ == strs[j as int]);
        }
        out.extend_from_slice(s);
        out.push(0u8);
        proof {
            assert(out@ =~= prev + s@ + seq![0u8]);
            assert(out@ + cstrings(strs.take(j as int)) =~= prev + (s@ + seq![0u8] + cstrings(
                strs.take(j as int),
            )));
        }
    }
    proof {
        assert(strs.take(0) =~= Seq::<Seq<u8>>::empty());
        assert(out@ + Seq::<u8>::empty() =~= out@);
    }
}

/// The addresses of the strings of `list`, laid out downwards from `top`, and
/// the address of the lowest one.
fn string_addrs(list: &Vec<String>, top: usize) -> (r: (Vec<u64>, usize))
    requires
        cstrings(utf8_all(list@)).len() <= top,
    ensures
        r.0@ == Seq::new(
            list@.len(),
            |i: int| (top - cstrings(utf8_all(list@).take(i + 1)).len()) as u64,
        ),
        r.1 == top - cstrings(utf8_all(list@)).len(),
{
    let ghost strs = utf8_all(list@);
    let mut addrs: Vec<u64> = Vec::new();
    let mut at: usize = top;
    let mut i: usize = 0;
    proof {
        assert(strs.take(0) =~= Seq::<Seq<u8>>::empty());
    }
    while i < list.len()
        invariant
            i <= list@.len(),
            strs == utf8_all(list@),
            cstrings(strs).len() <= top,
            at == top - cstrings(strs.take(i as int)).len(),
            addrs@.len() == i,
            forall|k: int|
                0 <= k < i ==> addrs@[k] == (top - cstrings(strs.take(k + 1)).len()) as u64,
        decreases list@.len() - i,
    {
        let s = list[i].as_str().as_bytes();
        proof {
            lemma_cstrings_step(strs, i as int);
            lemma_cstrings_mono(strs, i + 1);
            assert(s@ == strs[i as int]);
        }
        at = at - 1 - s.len();
        addrs.push(at as u64);
        i = i + 1;
    }
    proof {
        assert(strs.take(i as int) =~= strs);
        assert(addrs@ =~= Seq::new(
            list@.len(),
            |i: int| (top - cstrings(utf8_all(list@).take(i + 1)).len()) as u64,
        ));
    }
    (addrs, at)
}

/// Appends the words of `words`.
fn push_words(out: &mut Vec<u8>, words: &Vec<u64>)
    ensures
        final(out)@ == old(out)@ + words_bytes(words@),
{
    let ghost before = out@;
    let mut i: usize = 0;
    proof {
        assert(words@.take(0) =~= Seq::<u64>::empty());
        assert(out@ =~= before + words_bytes(words@.take(0)));
    }
    while i < words.len()
        invariant
            i <= words@.len(),
            out@ == before + words_bytes(words@.take(i as int)),
        decreases words@.len() - i,
    {
        push_word(out, words[i]);
        proof {
            let t = words@.take(i + 1);
            assert(t.drop_last() =~= words@.take(i as int));
            assert(out@ =~= before + words_bytes(t));
        }
        i = i + 1;
    }
    proof {
        assert(words@.take(i as int) =~= words@);
    }
}

/// Appends `n` zero bytes.
fn push_zeros(out: &mut Vec<u8>, n: usize)
    ensures
        final(out)@ == old(out)@ + zeros(n as nat),
{
    let ghost before = out@;
    let mut i: usize = 0;
    assert(out@ =~= before + zeros(0));
    while i < n
        invariant
            i <= n,
            out@ == before + zeros(i as nat),
        decreases n - i,
    {
        out.push(0u8);
        i = i + 1;
        assert(out@ =~= before + zeros(i as nat));
    }
}

/// Appends the words of the entries of `auxv`.
fn push_aux(words: &mut Vec<u64>, auxv: &Vec<AuxEntry>)
    ensures
        final(words)@ == old(words)@ + aux_words(auxv@),
{
    let ghost before = words@;
    let mut i: usize = 0;
    assert(words@ =~= before + aux_words(auxv@.take(0)));
    while i < auxv.len()
        invariant
            i <= auxv@.len(),
            words@ == before + aux_words(auxv@.take(i as int)),
        decreases auxv@.len() - i,
    {
        words.push(auxv[i].kind as u64);
        words.push(auxv[i].value as u64);
        i = i + 1;
        assert(words@ =~= before + aux_words(auxv@.take(i as int)));
    }
    assert(auxv@.take(i as int) =~= auxv@);
}

/// The entries of `auxv` with those that the program relies on added.
fn complete_auxv(auxv: &Vec<AuxEntry>, random: usize, execfn: usize) -> (r: Vec<AuxEntry>)
    ensures
        r@ == full_auxv(auxv@, random, execfn),
{
    let mut full: Vec<AuxEntry> = Vec::new();
    let mut i: usize = 0;
    while i < auxv.len()
        invariant
            i <= auxv@.len(),
            full@ == auxv@.take(i as int),
        decreases auxv@.len() - i,
    {
        full.push(auxv[i]);
        i = i + 1;
        assert(full@ =~= auxv@.take(i as int));
    }
    assert(full@ =~= auxv@);
    let has_random = contains_kind(auxv, AT_RANDOM);
    let has_execfn = contains_kind(auxv, AT_EXECFN);
    if !has_random {
        full.push(AuxEntry { kind: AT_RANDOM, value: random });
    }
    if !has_execfn {
        full.push(AuxEntry { kind: AT_EXECFN, value: execfn });
    }
    full.push(AuxEntry { kind: AT_NULL, value: 0 });
    assert(full@ =~= full_auxv(auxv@, random, execfn));
    full
}

/// The initial stack of a program that is started with `args`, `envs` and
/// `auxv`, on a stack whose highest address is `sp`.
///
/// The stack pointer of the program is `sp` minus the length of the result.
pub fn app_stack_region(
    args: &Vec<String>,
    envs: &Vec<String>,
    auxv: &Vec<AuxEntry>,
    sp: usize,
) -> (r: Vec<u8>)
    requires
        args@.len() > 0 || has_kind(auxv@, AT_EXECFN),
        stack_image(utf8_all(args@), utf8_all(envs@), auxv@, sp as int).len() <= sp,
    ensures
        r@ == stack_image(utf8_all(args@), utf8_all(envs@), auxv@, sp as int),
{
    let ghost a = utf8_all(args@);
    let ghost e = utf8_all(envs@);
    let random: usize = sp - 16;
    let (envp, env_low) = string_addrs(envs, random);
    let (argv, arg_low) = string_addrs(args, env_low);

    let mut words: Vec<u64> = Vec::new();
    words.push(args.len() as u64);
    let mut argv_words = argv;
    let execfn: usize = if args.len() > 0 {
        proof {
            lemma_cstrings_mono(a, 1);
        }
        argv_words[0] as usize
    } else {
        0
    };
    words.append(&mut argv_words);
    words.push(0u64);
    let mut envp_words = envp;
    words.append(&mut envp_words);
    words.push(0u64);
    let full = complete_auxv(auxv, random, execfn);
    push_aux(&mut words, &full);
    proof {
        assert(words@ =~= stack_words(a, e, auxv@, sp as int));
    }

    let mut region: Vec<u8> = Vec::new();
    push_words(&mut region, &words);
    let fill: usize = (arg_low - 8) % 16;
    if (envs.len() % 2 + args.len() % 2 + 3) % 2 != 0 {
        push_zeros(&mut region, 8);
    }
    push_zeros(&mut region, fill);
    push_zeros(&mut region, 8);
    proof {
        assert(region@ =~= words_bytes(words@) + zeros(padding_len(a, e, sp as int)));
    }
    push_cstrings(&mut region, args);
    push_cstrings(&mut region, envs);
    push_word(&mut region, 0x3736_3534_3332_3130);
    push_word(&mut region, 0x6665_6463_6261_3938);
    proof {
        assert(word_bytes(0x3736_3534_3332_3130) + word_bytes(0x6665_6463_6261_3938)
            =~= random_bytes());
        assert(region@ =~= stack_image(a, e, auxv@, sp as int));
    }
    region
}

/// What is left of `top` below the strings of `list`, if they fit.
fn below_strings(list: &Vec<String>, top: usize) -> (r: Option<usize>)
    ensures
        r == (if cstrings(utf8_all(list@)).len() <= top {
            Some((top - cstrings(utf8_all(list@)).len()) as usize)
        } else {
            None
        }),
{
    let ghost strs = utf8_all(list@);
    let mut at: usize = top;
    let mut i: usize = 0;
    proof {
        assert(strs.take(0) =~= Seq::<Seq<u8>>::empty());
    }
    while i < list.len()
        invariant
            i <= list@.len(),
            strs == utf8_all(list@),
            at == top - cstrings(strs.take(i as int)).len(),
        decreases list@.len() - i,
    {
        let s = list[i].as_str().as_bytes();
        proof {
            lemma_cstrings_step(strs, i as int);
            lemma_cstrings_mono(strs, i + 1);
            assert(s@ == strs[i as int]);
        }
        if at == 0 || at - 1 < s.len() {
            return None;
        }
        at = at - 1 - s.len();
        i = i + 1;
    }
    proof {
        assert(strs.take(i as int) =~= strs);
    }
    Some(at)
}

/// The number of entries that are added to the auxiliary vector.
pub open spec fn added_entries(auxv: Seq<AuxEntry>) -> int {
    let random: int = if has_kind(auxv, AT_RANDOM) {
        0
    } else {
        1
    };
    let execfn: int = if has_kind(auxv, AT_EXECFN) {
        0
    } else {
        1
    };
    random + execfn + 1
}

/// The length of everything but the strings, when these begin at `low` and
/// `entries` is the length of the auxiliary vector.
pub open spec fn lower_len(low: int, args: int, envs: int, entries: int) -> int {
    let odd: int = if (args + envs + 3) % 2 != 0 {
        8
    } else {
        0
    };
    8 + (low - 8) % 16 + odd + 8 * (args + envs + 3) + 16 * entries
}

/// The length of the initial contents of the stack.
proof fn lemma_image_len(args: Seq<Seq<u8>>, envs: Seq<Seq<u8>>, auxv: Seq<AuxEntry>, sp: int)
    ensures
        ({
            let area = 16 + cstrings(envs).len() + cstrings(args).len();
            stack_image(args, envs, auxv, sp).len() == area + lower_len(
                sp - area,
                args.len() as int,
                envs.len() as int,
                auxv.len() + added_entries(auxv),
            )
        }),
{
    let words = stack_words(args, envs, auxv, sp);
    lemma_words_len(words);
    let execfn = if args.len() > 0 {
        arg_addr(args, envs, sp, 0) as usize
    } else {
        0
    };
    let full = full_auxv(auxv, random_addr(sp) as usize, execfn);
    assert(full.len() == auxv.len() + added_entries(auxv));
    assert(words.len() == args.len() + envs.len() + 3 + 2 * full.len());
}

/// Whether everything but the strings fits below `low`.
fn lower_fits(low: usize, args: usize, envs: usize, aux: usize, added: usize) -> (r: bool)
    requires
        added <= 3,
    ensures
        r == (lower_len(low as int, args as int, envs as int, aux + added) <= low),
{
    if low < 8 {
        return false;
    }
    let fill: usize = (low - 8) % 16;
    let odd: usize = if (envs % 2 + args % 2 + 3) % 2 != 0 {
        8
    } else {
        0
    };
    let room: usize = low - 8 - fill;
    if room < odd {
        return false;
    }
    let slots: usize = (room - odd) / 8;
    if slots < 3 || args > slots - 3 || envs > slots - 3 - args {
        return false;
    }
    let rest: usize = (slots - 3 - args - envs) / 2;
    aux <= rest && added <= rest - aux
}

/// Whether a stack that ends at `sp` has room for the initial contents, and
/// the program has a name to be told of.
pub fn stack_fits(
    args: &Vec<String>,
    envs: &Vec<String>,
    auxv: &Vec<AuxEntry>,
    sp: usize,
) -> (r: bool)
    ensures
        r == (stack_image(utf8_all(args@), utf8_all(envs@), auxv@, sp as int).len() <= sp && (
        args@.len() > 0 || has_kind(auxv@, AT_EXECFN))),
{
    proof {
        lemma_image_len(utf8_all(args@), utf8_all(envs@), auxv@, sp as int);
    }
    let has_random = contains_kind(auxv, AT_RANDOM);
    let has_execfn = contains_kind(auxv, AT_EXECFN);
    if args.len() == 0 && !has_execfn {
        return false;
    }
    if sp < 16 {
        return false;
    }
    let env_low: usize = match below_strings(envs, sp - 16) {
        Some(env_low) => env_low,
        None => {
            return false;
        },
    };
    let low: usize = match below_strings(args, env_low) {
        Some(low) => low,
        None => {
            return false;
        },
    };
    let mut added: usize = 1;
    if !has_random {
        added = added + 1;
    }
    if !has_execfn {
        added = added + 1;
    }
    lower_fits(low, args.len(), envs.len(), auxv.len(), added)
}

/// The first `k` strings stand at the end of the whole.
proof fn lemma_cstrings_suffix(list: Seq<Seq<u8>>, k: int)
    requires
        0 <= k <= list.len(),
    ensures
        cstrings(list.take(k)).len() <= cstrings(list).len(),
        cstrings(list).skip(cstrings(list).len() - cstrings(list.take(k)).len()) == cstrings(
            list.take(k),
        ),
    decreases list.len(),
{
    if k == list.len() {
        assert(list.take(k) =~= list);
        assert(cstrings(list).skip(0) =~= cstrings(list));
    } else {
        let init = list.drop_last();
        lemma_cstrings_suffix(init, k);
        assert(init.take(k) =~= list.take(k));
        let n = cstrings(list.take(k)).len();
        assert(cstrings(list).skip(cstrings(list).len() - n) =~= cstrings(init).skip(
            cstrings(init).len() - n,
        ));
    }
}

/// String `i` and its terminator, counted from the end of the whole.
proof fn lemma_cstring_at(list: Seq<Seq<u8>>, i: int)
    requires
        0 <= i < list.len(),
    ensures
        ({
            let at = cstrings(list).len() - cstrings(list.take(i + 1)).len();
            &&& 0 <= at
            &&& at + list[i].len() + 1 <= cstrings(list).len()
            &&& cstrings(list).subrange(at, at + list[i].len() + 1) == list[i] + seq![0u8]
        }),
{
    lemma_cstrings_suffix(list, i + 1);
    lemma_cstrings_step(list, i);
    let at = cstrings(list).len() - cstrings(list.take(i + 1)).len();
    let tail = cstrings(list).skip(at);
    assert(cstrings(list).subrange(at, at + list[i].len() + 1) =~= tail.take(
        list[i].len() as int + 1,
    ));
    assert(tail.take(list[i].len() as int + 1) =~= list[i] + seq![0u8]);
}

/// The stack pointer of a new program is a multiple of sixteen.
pub proof fn law_stack_pointer_is_aligned(
    args: Seq<Seq<u8>>,
    envs: Seq<Seq<u8>>,
    auxv: Seq<AuxEntry>,
    sp: int,
)
    ensures
        (sp - stack_image(args, envs, auxv, sp).len()) % 16 == 0,
{
    lemma_image_len(args, envs, auxv, sp);
    let area = 16 + cstrings(envs).len() + cstrings(args).len();
    let pointers = args.len() + envs.len() + 3;
    let odd: int = if pointers % 2 != 0 {
        8
    } else {
        0
    };
    assert((8 * pointers + odd) % 16 == 0);
    let low = sp - area - 8;
    assert((low - low % 16) % 16 == 0);
}

/// Word `i` above the stack pointer is word `i` of [`stack_words`]: the
/// argument count, then `argv` and its null, `envp` and its null, and the
/// auxiliary vector.
pub proof fn law_stack_word_at(
    args: Seq<Seq<u8>>,
    envs: Seq<Seq<u8>>,
    auxv: Seq<AuxEntry>,
    sp: int,
    i: int,
)
    requires
        0 <= i < stack_words(args, envs, auxv, sp).len(),
    ensures
        8 * i + 8 <= stack_image(args, envs, auxv, sp).len(),
        word_value(stack_image(args, envs, auxv, sp).subrange(8 * i, 8 * i + 8)) == stack_words(
            args,
            envs,
            auxv,
            sp,
        )[i],
{
    let words = stack_words(args, envs, auxv, sp);
    lemma_word_at(words, i);
    law_word_round_trip(words[i]);
    assert(stack_image(args, envs, auxv, sp).subrange(8 * i, 8 * i + 8) =~= words_bytes(
        words,
    ).subrange(8 * i, 8 * i + 8));
}

/// Where the address `addr` lies in the image of the stack that ends at `sp`.
pub open spec fn image_offset(image: Seq<u8>, sp: int, addr: int) -> int {
    addr - (sp - image.len())
}

/// The address of argument `i` is that of its bytes and a terminating zero.
pub proof fn law_argument_at_its_address(
    args: Seq<Seq<u8>>,
    envs: Seq<Seq<u8>>,
    auxv: Seq<AuxEntry>,
    sp: int,
    i: int,
)
    requires
        0 <= i < args.len(),
    ensures
        ({
            let image = stack_image(args, envs, auxv, sp);
            let at = image_offset(image, sp, arg_addr(args, envs, sp, i));
            &&& 0 <= at
            &&& at + args[i].len() + 1 <= image.len()
            &&& image.subrange(at, at + args[i].len() + 1) == args[i] + seq![0u8]
        }),
{
    lemma_cstring_at(args, i);
    let image = stack_image(args, envs, auxv, sp);
    let at = image_offset(image, sp, arg_addr(args, envs, sp, i));
    let inner = cstrings(args).len() - cstrings(args.take(i + 1)).len();
    assert(image.subrange(at, at + args[i].len() + 1) =~= cstrings(args).subrange(
        inner,
        inner + args[i].len() + 1,
    ));
}

/// The address of environment string `i` is that of its bytes and a
/// terminating zero.
pub proof fn law_environment_at_its_address(
    args: Seq<Seq<u8>>,
    envs: Seq<Seq<u8>>,
    auxv: Seq<AuxEntry>,
    sp: int,
    i: int,
)
    requires
        0 <= i < envs.len(),
    ensures
        ({
            let image = stack_image(args, envs, auxv, sp);
            let at = image_offset(image, sp, env_addr(envs, sp, i));
            &&& 0 <= at
            &&& at + envs[i].len() + 1 <= image.len()
            &&& image.subrange(at, at + envs[i].len() + 1) == envs[i] + seq![0u8]
        }),
{
    lemma_cstring_at(envs, i);
    let image = stack_image(args, envs, auxv, sp);
    let at = image_offset(image, sp, env_addr(envs, sp, i));
    let inner = cstrings(envs).len() - cstrings(envs.take(i + 1)).len();
    assert(image.subrange(at, at + envs[i].len() + 1) =~= cstrings(envs).subrange(
        inner,
        inner + envs[i].len() + 1,
    ));
}

/// The address in the `AT_RANDOM` entry is that of sixteen bytes.
pub proof fn law_random_bytes_at_their_address(
    args: Seq<Seq<u8>>,
    envs: Seq<Seq<u8>>,
    auxv: Seq<AuxEntry>,
    sp: int,
)
    ensures
        ({
            let image = stack_image(args, envs, auxv, sp);
            let at = image_offset(image, sp, random_addr(sp));
            &&& 0 <= at
            &&& at + 16 == image.len()
            &&& image.skip(at) == random_bytes()
        }),
{
    let image = stack_image(args, envs, auxv, sp);
    assert(image.skip(image_offset(image, sp, random_addr(sp))) =~= random_bytes());
}

/// The auxiliary vector that the program sees ends with `AT_NULL` and holds
/// no `AT_NULL` before that unless it was given one; `AT_RANDOM` and
/// `AT_EXECFN` are always in it.
pub proof fn law_auxv_is_complete(auxv: Seq<AuxEntry>, random: usize, execfn: usize)
    requires
        !has_kind(auxv, AT_NULL),
    ensures
        ({
            let full = full_auxv(auxv, random, execfn);
            &&& full.len() > 0
            &&& full.last() == (AuxEntry { kind: AT_NULL, value: 0 })
            &&& !has_kind(full.drop_last(), AT_NULL)
            &&& has_kind(full, AT_RANDOM)
            &&& has_kind(full, AT_EXECFN)
        }),
{
    let full = full_auxv(auxv, random, execfn);
    let init = full.drop_last();
    assert forall|i: int| 0 <= i < init.len() implies (#[trigger] init[i]).kind != AT_NULL by {
        if i < auxv.len() {
            assert(init[i] == auxv[i]);
        }
    }
    if has_kind(auxv, AT_RANDOM) {
        let i = choose|i: int| 0 <= i < auxv.len() && (#[trigger] auxv[i]).kind == AT_RANDOM;
        assert(full[i] == auxv[i]);
    } else {
        assert(full[auxv.len() as int].kind == AT_RANDOM);
    }
    if has_kind(auxv, AT_EXECFN) {
        let i = choose|i: int| 0 <= i < auxv.len() && (#[trigger] auxv[i]).kind == AT_EXECFN;
        assert(full[i] == auxv[i]);
    } else {
        assert(full[full.len() - 2].kind == AT_EXECFN);
    }
}

/// Word `i` above the stack pointer, lowest byte first.
pub open spec fn word_on_stack(image: Seq<u8>, i: int) -> int {
    number_at(image, 8 * i, 8)
}

/// On a stack that ends at `sp`, above its first `words` words, `text` and a
/// terminating zero stand at `addr`.
pub open spec fn stands_at(image: Seq<u8>, sp: int, words: int, addr: int, text: Seq<u8>) -> bool {
    let at = addr - (sp - image.len());
    &&& 8 * words <= at
    &&& at + text.len() + 1 <= image.len()
    &&& image.subrange(at, at + text.len() as int) == text
    &&& image[at + text.len() as int] == 0
}

/// The words that the image begins with.
proof fn lemma_words_on_stack(
    args: Seq<Seq<u8>>,
    envs: Seq<Seq<u8>>,
    auxv: Seq<AuxEntry>,
    sp: int,
    i: int,
)
    requires
        0 <= i < stack_words(args, envs, auxv, sp).len(),
    ensures
        word_on_stack(stack_image(args, envs, auxv, sp), i) == stack_words(
            args,
            envs,
            auxv,
            sp,
        )[i],
{
    let image = stack_image(args, envs, auxv, sp);
    law_stack_word_at(args, envs, auxv, sp, i);
    law_word_is_a_number(image.subrange(8 * i, 8 * i + 8));
    lemma_number_in_part(image, 8 * i, 8 * i + 8, 0, 8);
}

/// A program finds its arguments: the first word at its stack pointer is their
/// number; word `1 + i` is the address at which argument `i` stands with a zero
/// behind it; behind them there is a null word; then come the addresses at which
/// the environment strings stand, in their order, and a null word. The stack
/// pointer is a multiple of sixteen.
pub proof fn law_program_finds_its_arguments(
    args: &Vec<String>,
    envs: &Vec<String>,
    auxv: &Vec<AuxEntry>,
    sp: usize,
    r: Vec<u8>,
)
    requires
        args@.len() > 0 || has_kind(auxv@, AT_EXECFN),
        stack_image(utf8_all(args@), utf8_all(envs@), auxv@, sp as int).len() <= sp,
        call_ensures(app_stack_region, (args, envs, auxv, sp), r),
    ensures
        r@.len() <= sp,
        (sp - r@.len()) % 16 == 0,
        ({
            let n = args@.len() as int;
            let m = envs@.len() as int;
            let words = n + m + 3 + 2 * auxv@.len();
            &&& word_on_stack(r@, 0) == n
            &&& forall|i: int|
                #![trigger args@[i]]
                0 <= i < n ==> stands_at(
                    r@,
                    sp as int,
                    words,
                    word_on_stack(r@, 1 + i),
                    encode_utf8(args@[i]@),
                )
            &&& word_on_stack(r@, n + 1) == 0
            &&& forall|j: int|
                #![trigger envs@[j]]
                0 <= j < m ==> stands_at(
                    r@,
                    sp as int,
                    words,
                    word_on_stack(r@, n + 2 + j),
                    encode_utf8(envs@[j]@),
                )
            &&& word_on_stack(r@, n + 2 + m) == 0
        }),
{
    let a = utf8_all(args@);
    let e = utf8_all(envs@);
    let image = stack_image(a, e, auxv@, sp as int);
    let words = stack_words(a, e, auxv@, sp as int);
    let n = args@.len() as int;
    let m = envs@.len() as int;
    law_stack_pointer_is_aligned(a, e, auxv@, sp as int);
    lemma_words_len(words);
    assert(image.len() >= 8 * words.len() + 16);
    lemma_words_on_stack(a, e, auxv@, sp as int, 0);
    lemma_words_on_stack(a, e, auxv@, sp as int, n + 1);
    lemma_words_on_stack(a, e, auxv@, sp as int, n + 2 + m);
    assert forall|i: int| #![trigger args@[i]] 0 <= i < n implies stands_at(
        image,
        sp as int,
        n + m + 3 + 2 * auxv@.len(),
        word_on_stack(image, 1 + i),
        encode_utf8(args@[i]@),
    ) by {
        assert(a[i] == encode_utf8(args@[i]@));
        lemma_words_on_stack(a, e, auxv@, sp as int, 1 + i);
        law_argument_at_its_address(a, e, auxv@, sp as int, i);
        lemma_cstring_at(a, i);
        assert(words[1 + i] == arg_addr(a, e, sp as int, i) as u64);
        let at = image_offset(image, sp as int, arg_addr(a, e, sp as int, i));
        let whole = image.subrange(at, at + a[i].len() + 1);
        assert(image.subrange(at, at + a[i].len() as int) =~= whole.take(a[i].len() as int));
        assert(whole.take(a[i].len() as int) =~= a[i]);
        assert(image[at + a[i].len() as int] == whole[a[i].len() as int]);
    }
    assert forall|j: int| #![trigger envs@[j]] 0 <= j < m implies stands_at(
        image,
        sp as int,
        n + m + 3 + 2 * auxv@.len(),
        word_on_stack(image, n + 2 + j),
        encode_utf8(envs@[j]@),
    ) by {
        assert(e[j] == encode_utf8(envs@[j]@));
        lemma_words_on_stack(a, e, auxv@, sp as int, n + 2 + j);
        law_environment_at_its_address(a, e, auxv@, sp as int, j);
        lemma_cstring_at(e, j);
        assert(words[n + 2 + j] == env_addr(e, sp as int, j) as u64);
        let at = image_offset(image, sp as int, env_addr(e, sp as int, j));
        let whole = image.subrange(at, at + e[j].len() + 1);
        assert(image.subrange(at, at + e[j].len() as int) =~= whole.take(e[j].len() as int));
        assert(whole.take(e[j].len() as int) =~= e[j]);
        assert(image[at + e[j].len() as int] == whole[e[j].len() as int]);
    }
}

/// A program finds its auxiliary vector behind its environment: kind and value
/// of each entry that was given, in their order; then, unless they were given,
/// the address of the sixteen random bytes at the end of the stack and that of
/// the first argument; then an entry of two zeros.
pub proof fn law_program_finds_its_auxiliary_vector(
    args: &Vec<String>,
    envs: &Vec<String>,
    auxv: &Vec<AuxEntry>,
    sp: usize,
    r: Vec<u8>,
)
    requires
        args@.len() > 0 || has_kind(auxv@, AT_EXECFN),
        stack_image(utf8_all(args@), utf8_all(envs@), auxv@, sp as int).len() <= sp,
        call_ensures(app_stack_region, (args, envs, auxv, sp), r),
    ensures
        ({
            let first = (args@.len() + envs@.len() + 3) as int;
            let random = first + 2 * auxv@.len();
            let gives_random = exists|i: int|
                0 <= i < auxv@.len() && (#[trigger] auxv@[i]).kind == 25;
            let gives_name = exists|i: int|
                0 <= i < auxv@.len() && (#[trigger] auxv@[i]).kind == 31;
            let name = random + if gives_random {
                0int
            } else {
                2
            };
            let end = name + if gives_name {
                0int
            } else {
                2
            };
            &&& forall|k: int|
                #![trigger auxv@[k]]
                0 <= k < auxv@.len() ==> word_on_stack(r@, first + 2 * k) == auxv@[k].kind
                    && word_on_stack(r@, first + 2 * k + 1) == auxv@[k].value
            &&& !gives_random ==> word_on_stack(r@, random) == 25 && word_on_stack(r@, random + 1)
                == sp - 16
            &&& r@.len() >= 16 && forall|k: int|
                0 <= k < 16 ==> #[trigger] r@[r@.len() - 16 + k] == if k < 10 {
                    48 + k
                } else {
                    87 + k
                }
            &&& !gives_name ==> word_on_stack(r@, name) == 31 && word_on_stack(r@, name + 1)
                == word_on_stack(r@, 1)
            &&& word_on_stack(r@, end) == 0 && word_on_stack(r@, end + 1) == 0
        }),
{
    let a = utf8_all(args@);
    let e = utf8_all(envs@);
    let image = stack_image(a, e, auxv@, sp as int);
    let words = stack_words(a, e, auxv@, sp as int);
    let first = (args@.len() + envs@.len() + 3) as int;
    let execfn = if a.len() > 0 {
        arg_addr(a, e, sp as int, 0) as usize
    } else {
        0
    };
    let full = full_auxv(auxv@, random_addr(sp as int) as usize, execfn);
    lemma_words_len(words);
    assert(words.len() == first + 2 * full.len());
    assert(image.len() >= 8 * words.len() + 16);
    assert forall|k: int| 0 <= k < full.len() implies word_on_stack(image, first + 2 * k)
        == (#[trigger] full[k]).kind && word_on_stack(image, first + 2 * k + 1)
        == full[k].value by {
        lemma_words_on_stack(a, e, auxv@, sp as int, first + 2 * k);
        lemma_words_on_stack(a, e, auxv@, sp as int, first + 2 * k + 1);
        assert(words[first + 2 * k] == aux_words(full)[2 * k]);
        assert(words[first + 2 * k + 1] == aux_words(full)[2 * k + 1]);
        assert((2 * k) % 2 == 0 && (2 * k) / 2 == k);
        assert((2 * k + 1) % 2 == 1 && (2 * k + 1) / 2 == k);
    }
    assert forall|k: int| #![trigger auxv@[k]] 0 <= k < auxv@.len() implies full[k] == auxv@[k] by {}
    let random = auxv@.len() as int;
    let name = random + if has_kind(auxv@, AT_RANDOM) {
        0int
    } else {
        1
    };
    if !has_kind(auxv@, AT_RANDOM) {
        assert(full[random] == (AuxEntry { kind: AT_RANDOM, value: (sp - 16) as usize }));
    }
    if !has_kind(auxv@, AT_EXECFN) {
        assert(full[name] == (AuxEntry { kind: AT_EXECFN, value: execfn }));
        lemma_words_on_stack(a, e, auxv@, sp as int, 1);
        lemma_cstring_at(a, 0);
        assert(words[1] == arg_addr(a, e, sp as int, 0) as u64);
    }
    assert(full[full.len() - 1] == (AuxEntry { kind: AT_NULL, value: 0 }));
    law_random_bytes_at_their_address(a, e, auxv@, sp as int);
    assert forall|k: int| 0 <= k < 16 implies #[trigger] image[image.len() - 16 + k] == if k < 10 {
        48 + k
    } else {
        87 + k
    } by {
        assert(image[image.len() - 16 + k] == image.skip(image.len() - 16)[k]);
    }
}

/// A stack has room when its image is not longer than all that is below its
/// end: the words, the strings with their terminators, the random bytes, and
/// what aligns them; and a program needs an argument, or else a name among the
/// entries.
pub proof fn law_stack_has_room(
    args: &Vec<String>,
    envs: &Vec<String>,
    auxv: &Vec<AuxEntry>,
    sp: usize,
    r: bool,
)
    requires
        call_ensures(stack_fits, (args, envs, auxv, sp), r),
    ensures
        r ==> call_requires(app_stack_region, (args, envs, auxv, sp)),
        ({
            let named = args@.len() > 0 || exists|i: int|
                0 <= i < auxv@.len() && (#[trigger] auxv@[i]).kind == 31;
            let least = 8 * (args@.len() + envs@.len() + 3 + 2 * auxv@.len() + 2) + text_len(args@)
                + text_len(envs@) + 16 + 8;
            &&& r ==> named && least <= sp
            &&& named && least + 32 + 24 <= sp ==> r
        }),
{
    lemma_image_len(utf8_all(args@), utf8_all(envs@), auxv@, sp as int);
    lemma_text_len(args@);
    lemma_text_len(envs@);
}

/// The length of all strings of `list`, each with a terminator.
pub open spec fn text_len(list: Seq<String>) -> int {
    list.fold_left(0, |sum: int, s: String| sum + encode_utf8(s@).len() + 1)
}

/// The length of the strings does not depend on how they are laid out.
proof fn lemma_text_len(list: Seq<String>)
    ensures
        cstrings(utf8_all(list)).len() == text_len(list),
    decreases list.len(),
{
    reveal_with_fuel(Seq::fold_left, 2);
    if list.len() > 0 {
        assert(utf8_all(list).drop_last() =~= utf8_all(list.drop_last()));
        assert(utf8_all(list).last() == encode_utf8(list.last()@));
        lemma_text_len(list.drop_last());
    }
}

/// The strings stand one below the other without gaps: the first environment
/// string right below the random bytes, each further one right below the one
/// before, then the arguments in the same way. Below them there are only zeros
/// down to the words: one word, what aligns it to sixteen bytes, and one more
/// word if the number of pointers and nulls is odd.
pub proof fn law_strings_stand_without_gaps(
    args: &Vec<String>,
    envs: &Vec<String>,
    auxv: &Vec<AuxEntry>,
    sp: usize,
    r: Vec<u8>,
)
    requires
        args@.len() > 0 || has_kind(auxv@, AT_EXECFN),
        stack_image(utf8_all(args@), utf8_all(envs@), auxv@, sp as int).len() <= sp,
        call_ensures(app_stack_region, (args, envs, auxv, sp), r),
    ensures
        ({
            let n = args@.len() as int;
            let m = envs@.len() as int;
            let given: int = 1 + (if has_kind(auxv@, 25) {
                0int
            } else {
                1
            }) + (if has_kind(auxv@, 31) {
                0int
            } else {
                1
            });
            let words = n + m + 3 + 2 * (auxv@.len() + given);
            let low = sp - 16 - text_len(envs@) - text_len(args@);
            let end = low - 8 - (low - 8) % 16 - if (n + m) % 2 == 0 {
                8int
            } else {
                0
            };
            &&& r@.len() == sp - end + 8 * words
            &&& forall|k: int|
                8 * words <= k < r@.len() - (sp - low) ==> #[trigger] r@[k] == 0
            &&& forall|j: int|
                #![trigger envs@[j]]
                0 <= j < m ==> word_on_stack(r@, n + 2 + j) + encode_utf8(envs@[j]@).len() + 1
                    == if j == 0 {
                    sp - 16
                } else {
                    word_on_stack(r@, n + 2 + j - 1)
                }
            &&& forall|i: int|
                #![trigger args@[i]]
                0 <= i < n ==> word_on_stack(r@, 1 + i) + encode_utf8(args@[i]@).len() + 1
                    == if i == 0 {
                    sp - 16 - text_len(envs@)
                } else {
                    word_on_stack(r@, i)
                }
        }),
{
    let a = utf8_all(args@);
    let e = utf8_all(envs@);
    let image = stack_image(a, e, auxv@, sp as int);
    let words = stack_words(a, e, auxv@, sp as int);
    let n = args@.len() as int;
    let m = envs@.len() as int;
    lemma_image_len(a, e, auxv@, sp as int);
    lemma_text_len(args@);
    lemma_text_len(envs@);
    lemma_words_len(words);
    assert(words_bytes(words).len() == 8 * words.len());
    let pad = padding_len(a, e, sp as int);
    assert(image.len() == 8 * words.len() + pad + string_area(a, e).len());
    assert forall|k: int| 8 * words.len() <= k < 8 * words.len() + pad implies #[trigger] image[k]
        == 0 by {
        assert(image[k] == zeros(pad)[k - 8 * words.len()]);
    }
    assert(a.take(0) =~= Seq::<Seq<u8>>::empty());
    assert(e.take(0) =~= Seq::<Seq<u8>>::empty());
    assert forall|j: int| #![trigger envs@[j]] 0 <= j < m implies word_on_stack(image, n + 2 + j)
        + encode_utf8(envs@[j]@).len() + 1 == if j == 0 {
        sp - 16
    } else {
        word_on_stack(image, n + 2 + j - 1)
    } by {
        assert(e[j] == encode_utf8(envs@[j]@));
        lemma_cstrings_step(e, j);
        lemma_cstrings_mono(e, j + 1);
        lemma_words_on_stack(a, e, auxv@, sp as int, n + 2 + j);
        assert(words[n + 2 + j] == env_addr(e, sp as int, j) as u64);
        if j > 0 {
            lemma_cstrings_mono(e, j);
            lemma_words_on_stack(a, e, auxv@, sp as int, n + 2 + j - 1);
            assert(words[n + 2 + j - 1] == env_addr(e, sp as int, j - 1) as u64);
        }
    }
    assert forall|i: int| #![trigger args@[i]] 0 <= i < n implies word_on_stack(image, 1 + i)
        + encode_utf8(args@[i]@).len() + 1 == if i == 0 {
        sp - 16 - text_len(envs@)
    } else {
        word_on_stack(image, i)
    } by {
        assert(a[i] == encode_utf8(args@[i]@));
        lemma_cstrings_step(a, i);
        lemma_cstrings_mono(a, i + 1);
        lemma_words_on_stack(a, e, auxv@, sp as int, 1 + i);
        assert(words[1 + i] == arg_addr(a, e, sp as int, i) as u64);
        if i > 0 {
            lemma_cstrings_mono(a, i);
            lemma_words_on_stack(a, e, auxv@, sp as int, i);
            assert(words[i] == arg_addr(a, e, sp as int, i - 1) as u64);
        }
    }
}

} // verus!
