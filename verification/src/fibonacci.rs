//! Fibonacci numbers.

use vstd::prelude::*;

verus! {

/// The largest position whose Fibonacci number fits in an `i64`.
pub const LARGEST_POSITION: i64 = 92;

/// The number at position `n` of the Fibonacci sequence, which starts 0, 1.
/// A position below 0 gives the position itself.
pub open spec fn fibonacci_number(n: int) -> int
    decreases n,
{
    if n <= 1 {
        n
    } else {
        fibonacci_number(n - 1) + fibonacci_number(n - 2)
    }
}

/// From position 1 on, the sequence never falls.
pub proof fn lemma_fibonacci_never_falls(from: int, to: int)
    requires
        1 <= from <= to,
    ensures
        1 <= fibonacci_number(from) <= fibonacci_number(to),
    decreases to,
{
    assert(fibonacci_number(0) == 0);
    assert(fibonacci_number(1) == 1);
    if to >= 3 {
        lemma_fibonacci_never_falls(1, to - 2);
        if from < to {
            lemma_fibonacci_never_falls(from, to - 1);
        } else {
            lemma_fibonacci_never_falls(1, to - 1);
        }
    }
}

/// The number at position 92, the last that an `i64` holds.
pub proof fn lemma_largest_fibonacci_number()
    ensures
        fibonacci_number(92) == 7540113804746346429,
{
    assert(fibonacci_number(0) == 0);
    assert(fibonacci_number(1) == 1);
    assert(fibonacci_number(2) == 1);
    assert(fibonacci_number(3) == 2);
    assert(fibonacci_number(4) == 3);
    assert(fibonacci_number(5) == 5);
    assert(fibonacci_number(6) == 8);
    assert(fibonacci_number(7) == 13);
    assert(fibonacci_number(8) == 21);
    assert(fibonacci_number(9) == 34);
    assert(fibonacci_number(10) == 55);
    assert(fibonacci_number(11) == 89);
    assert(fibonacci_number(12) == 144);
    assert(fibonacci_number(13) == 233);
    assert(fibonacci_number(14) == 377);
    assert(fibonacci_number(15) == 610);
    assert(fibonacci_number(16) == 987);
    assert(fibonacci_number(17) == 1597);
    assert(fibonacci_number(18) == 2584);
    assert(fibonacci_number(19) == 4181);
    assert(fibonacci_number(20) == 6765);
    assert(fibonacci_number(21) == 10946);
    assert(fibonacci_number(22) == 17711);
    assert(fibonacci_number(23) == 28657);
    assert(fibonacci_number(24) == 46368);
    assert(fibonacci_number(25) == 75025);
    assert(fibonacci_number(26) == 121393);
    assert(fibonacci_number(27) == 196418);
    assert(fibonacci_number(28) == 317811);
    assert(fibonacci_number(29) == 514229);
    assert(fibonacci_number(30) == 832040);
    assert(fibonacci_number(31) == 1346269);
    assert(fibonacci_number(32) == 2178309);
    assert(fibonacci_number(33) == 3524578);
    assert(fibonacci_number(34) == 5702887);
    assert(fibonacci_number(35) == 9227465);
    assert(fibonacci_number(36) == 14930352);
    assert(fibonacci_number(37) == 24157817);
    assert(fibonacci_number(38) == 39088169);
    assert(fibonacci_number(39) == 63245986);
    assert(fibonacci_number(40) == 102334155);
    assert(fibonacci_number(41) == 165580141);
    assert(fibonacci_number(42) == 267914296);
    assert(fibonacci_number(43) == 433494437);
    assert(fibonacci_number(44) == 701408733);
    assert(fibonacci_number(45) == 1134903170);
    assert(fibonacci_number(46) == 1836311903);
    assert(fibonacci_number(47) == 2971215073);
    assert(fibonacci_number(48) == 4807526976);
    assert(fibonacci_number(49) == 7778742049);
    assert(fibonacci_number(50) == 12586269025);
    assert(fibonacci_number(51) == 20365011074);
    assert(fibonacci_number(52) == 32951280099);
    assert(fibonacci_number(53) == 53316291173);
    assert(fibonacci_number(54) == 86267571272);
    assert(fibonacci_number(55) == 139583862445);
    assert(fibonacci_number(56) == 225851433717);
    assert(fibonacci_number(57) == 365435296162);
    assert(fibonacci_number(58) == 591286729879);
    assert(fibonacci_number(59) == 956722026041);
    assert(fibonacci_number(60) == 1548008755920);
    assert(fibonacci_number(61) == 2504730781961);
    assert(fibonacci_number(62) == 4052739537881);
    assert(fibonacci_number(63) == 6557470319842);
    assert(fibonacci_number(64) == 10610209857723);
    assert(fibonacci_number(65) == 17167680177565);
    assert(fibonacci_number(66) == 27777890035288);
    assert(fibonacci_number(67) == 44945570212853);
    assert(fibonacci_number(68) == 72723460248141);
    assert(fibonacci_number(69) == 117669030460994);
    assert(fibonacci_number(70) == 190392490709135);
    assert(fibonacci_number(71) == 308061521170129);
    assert(fibonacci_number(72) == 498454011879264);
    assert(fibonacci_number(73) == 806515533049393);
    assert(fibonacci_number(74) == 1304969544928657);
    assert(fibonacci_number(75) == 2111485077978050);
    assert(fibonacci_number(76) == 3416454622906707);
    assert(fibonacci_number(77) == 5527939700884757);
    assert(fibonacci_number(78) == 8944394323791464);
    assert(fibonacci_number(79) == 14472334024676221);
    assert(fibonacci_number(80) == 23416728348467685);
    assert(fibonacci_number(81) == 37889062373143906);
    assert(fibonacci_number(82) == 61305790721611591);
    assert(fibonacci_number(83) == 99194853094755497);
    assert(fibonacci_number(84) == 160500643816367088);
    assert(fibonacci_number(85) == 259695496911122585);
    assert(fibonacci_number(86) == 420196140727489673);
    assert(fibonacci_number(87) == 679891637638612258);
    assert(fibonacci_number(88) == 1100087778366101931);
    assert(fibonacci_number(89) == 1779979416004714189);
    assert(fibonacci_number(90) == 2880067194370816120);
    assert(fibonacci_number(91) == 4660046610375530309);
    assert(fibonacci_number(92) == 7540113804746346429);
}

/// The number at position `n` of the Fibonacci sequence; `n` itself where
/// `n` is below 1.
pub fn fibonacci(n: i64) -> (r: i64)
    requires
        n <= 92,
    ensures
        r == fibonacci_number(n as int),
{
    if n <= 1 {
        return n;
    }
    let mut previous: i64 = 0;
    let mut current: i64 = 1;
    let mut position: i64 = 1;
    while position < n
        invariant
            1 <= position <= n <= 92,
            previous == fibonacci_number(position - 1),
            current == fibonacci_number(position as int),
        decreases n - position,
    {
        proof {
            lemma_fibonacci_never_falls(position + 1, 92);
            lemma_largest_fibonacci_number();
        }
        let following = previous + current;
        previous = current;
        current = following;
        position += 1;
    }
    current
}

} // verus!
