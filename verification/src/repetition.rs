//! Loop exercises: an iterative Fibonacci and a tiny expression helper.

use vstd::prelude::*;

verus! {

/// The Fibonacci numbers.
pub open spec fn fib(n: nat) -> nat
    decreases n,
{
    if n == 0 {
        0
    } else if n == 1 {
        1
    } else {
        fib((n - 1) as nat) + fib((n - 2) as nat)
    }
}

/// The Fibonacci numbers never decrease.
pub proof fn lemma_fib_monotone(a: nat, b: nat)
    requires
        a <= b,
    ensures
        fib(a) <= fib(b),
    decreases b,
{
    if a < b {
        lemma_fib_monotone(a, (b - 1) as nat);
        if b >= 2 {
            assert(fib(b) == fib((b - 1) as nat) + fib((b - 2) as nat));
        }
    }
}

/// Exact Fibonacci values, continued by unfolding the
/// recurrence one step per assertion.
proof fn lemma_fib_values_a()
    ensures
        fib(49) == 7778742049,
        fib(50) == 12586269025,
{
    assert(fib(0) == 0);
    assert(fib(1) == 1);
    assert(fib(2) == 1);
    assert(fib(3) == 2);
    assert(fib(4) == 3);
    assert(fib(5) == 5);
    assert(fib(6) == 8);
    assert(fib(7) == 13);
    assert(fib(8) == 21);
    assert(fib(9) == 34);
    assert(fib(10) == 55);
    assert(fib(11) == 89);
    assert(fib(12) == 144);
    assert(fib(13) == 233);
    assert(fib(14) == 377);
    assert(fib(15) == 610);
    assert(fib(16) == 987);
    assert(fib(17) == 1597);
    assert(fib(18) == 2584);
    assert(fib(19) == 4181);
    assert(fib(20) == 6765);
    assert(fib(21) == 10946);
    assert(fib(22) == 17711);
    assert(fib(23) == 28657);
    assert(fib(24) == 46368);
    assert(fib(25) == 75025);
    assert(fib(26) == 121393);
    assert(fib(27) == 196418);
    assert(fib(28) == 317811);
    assert(fib(29) == 514229);
    assert(fib(30) == 832040);
    assert(fib(31) == 1346269);
    assert(fib(32) == 2178309);
    assert(fib(33) == 3524578);
    assert(fib(34) == 5702887);
    assert(fib(35) == 9227465);
    assert(fib(36) == 14930352);
    assert(fib(37) == 24157817);
    assert(fib(38) == 39088169);
    assert(fib(39) == 63245986);
    assert(fib(40) == 102334155);
    assert(fib(41) == 165580141);
    assert(fib(42) == 267914296);
    assert(fib(43) == 433494437);
    assert(fib(44) == 701408733);
    assert(fib(45) == 1134903170);
    assert(fib(46) == 1836311903);
    assert(fib(47) == 2971215073);
    assert(fib(48) == 4807526976);
    assert(fib(49) == 7778742049);
    assert(fib(50) == 12586269025);
}

/// Exact Fibonacci values, continued by unfolding the
/// recurrence one step per assertion.
proof fn lemma_fib_values_b()
    ensures
        fib(99) == 218922995834555169026,
        fib(100) == 354224848179261915075,
{
    lemma_fib_values_a();
    assert(fib(51) == 20365011074);
    assert(fib(52) == 32951280099);
    assert(fib(53) == 53316291173);
    assert(fib(54) == 86267571272);
    assert(fib(55) == 139583862445);
    assert(fib(56) == 225851433717);
    assert(fib(57) == 365435296162);
    assert(fib(58) == 591286729879);
    assert(fib(59) == 956722026041);
    assert(fib(60) == 1548008755920);
    assert(fib(61) == 2504730781961);
    assert(fib(62) == 4052739537881);
    assert(fib(63) == 6557470319842);
    assert(fib(64) == 10610209857723);
    assert(fib(65) == 17167680177565);
    assert(fib(66) == 27777890035288);
    assert(fib(67) == 44945570212853);
    assert(fib(68) == 72723460248141);
    assert(fib(69) == 117669030460994);
    assert(fib(70) == 190392490709135);
    assert(fib(71) == 308061521170129);
    assert(fib(72) == 498454011879264);
    assert(fib(73) == 806515533049393);
    assert(fib(74) == 1304969544928657);
    assert(fib(75) == 2111485077978050);
    assert(fib(76) == 3416454622906707);
    assert(fib(77) == 5527939700884757);
    assert(fib(78) == 8944394323791464);
    assert(fib(79) == 14472334024676221);
    assert(fib(80) == 23416728348467685);
    assert(fib(81) == 37889062373143906);
    assert(fib(82) == 61305790721611591);
    assert(fib(83) == 99194853094755497);
    assert(fib(84) == 160500643816367088);
    assert(fib(85) == 259695496911122585);
    assert(fib(86) == 420196140727489673);
    assert(fib(87) == 679891637638612258);
    assert(fib(88) == 1100087778366101931);
    assert(fib(89) == 1779979416004714189);
    assert(fib(90) == 2880067194370816120);
    assert(fib(91) == 4660046610375530309);
    assert(fib(92) == 7540113804746346429);
    assert(fib(93) == 12200160415121876738);
    assert(fib(94) == 19740274219868223167);
    assert(fib(95) == 31940434634990099905);
    assert(fib(96) == 51680708854858323072);
    assert(fib(97) == 83621143489848422977);
    assert(fib(98) == 135301852344706746049);
    assert(fib(99) == 218922995834555169026);
    assert(fib(100) == 354224848179261915075);
}

/// Exact Fibonacci values, continued by unfolding the
/// recurrence one step per assertion.
proof fn lemma_fib_values_c()
    ensures
        fib(149) == 6161314747715278029583501626149,
        fib(150) == 9969216677189303386214405760200,
{
    lemma_fib_values_b();
    assert(fib(101) == 573147844013817084101);
    assert(fib(102) == 927372692193078999176);
    assert(fib(103) == 1500520536206896083277);
    assert(fib(104) == 2427893228399975082453);
    assert(fib(105) == 3928413764606871165730);
    assert(fib(106) == 6356306993006846248183);
    assert(fib(107) == 10284720757613717413913);
    assert(fib(108) == 16641027750620563662096);
    assert(fib(109) == 26925748508234281076009);
    assert(fib(110) == 43566776258854844738105);
    assert(fib(111) == 70492524767089125814114);
    assert(fib(112) == 114059301025943970552219);
    assert(fib(113) == 184551825793033096366333);
    assert(fib(114) == 298611126818977066918552);
    assert(fib(115) == 483162952612010163284885);
    assert(fib(116) == 781774079430987230203437);
    assert(fib(117) == 1264937032042997393488322);
    assert(fib(118) == 2046711111473984623691759);
    assert(fib(119) == 3311648143516982017180081);
    assert(fib(120) == 5358359254990966640871840);
    assert(fib(121) == 8670007398507948658051921);
    assert(fib(122) == 14028366653498915298923761);
    assert(fib(123) == 22698374052006863956975682);
    assert(fib(124) == 36726740705505779255899443);
    assert(fib(125) == 59425114757512643212875125);
    assert(fib(126) == 96151855463018422468774568);
    assert(fib(127) == 155576970220531065681649693);
    assert(fib(128) == 251728825683549488150424261);
    assert(fib(129) == 407305795904080553832073954);
    assert(fib(130) == 659034621587630041982498215);
    assert(fib(131) == 1066340417491710595814572169);
    assert(fib(132) == 1725375039079340637797070384);
    assert(fib(133) == 2791715456571051233611642553);
    assert(fib(134) == 4517090495650391871408712937);
    assert(fib(135) == 7308805952221443105020355490);
    assert(fib(136) == 11825896447871834976429068427);
    assert(fib(137) == 19134702400093278081449423917);
    assert(fib(138) == 30960598847965113057878492344);
    assert(fib(139) == 50095301248058391139327916261);
    assert(fib(140) == 81055900096023504197206408605);
    assert(fib(141) == 131151201344081895336534324866);
    assert(fib(142) == 212207101440105399533740733471);
    assert(fib(143) == 343358302784187294870275058337);
    assert(fib(144) == 555565404224292694404015791808);
    assert(fib(145) == 898923707008479989274290850145);
    assert(fib(146) == 1454489111232772683678306641953);
    assert(fib(147) == 2353412818241252672952597492098);
    assert(fib(148) == 3807901929474025356630904134051);
    assert(fib(149) == 6161314747715278029583501626149);
    assert(fib(150) == 9969216677189303386214405760200);
}

/// Exact Fibonacci values, continued by unfolding the
/// recurrence one step per assertion.
proof fn lemma_fib_values_d()
    ensures
        fib(185) == 205697230343233228174223751303346572685,
        fib(186) == 332825110087067562321196029789634457848,
{
    lemma_fib_values_c();
    assert(fib(151) == 16130531424904581415797907386349);
    assert(fib(152) == 26099748102093884802012313146549);
    assert(fib(153) == 42230279526998466217810220532898);
    assert(fib(154) == 68330027629092351019822533679447);
    assert(fib(155) == 110560307156090817237632754212345);
    assert(fib(156) == 178890334785183168257455287891792);
    assert(fib(157) == 289450641941273985495088042104137);
    assert(fib(158) == 468340976726457153752543329995929);
    assert(fib(159) == 757791618667731139247631372100066);
    assert(fib(160) == 1226132595394188293000174702095995);
    assert(fib(161) == 1983924214061919432247806074196061);
    assert(fib(162) == 3210056809456107725247980776292056);
    assert(fib(163) == 5193981023518027157495786850488117);
    assert(fib(164) == 8404037832974134882743767626780173);
    assert(fib(165) == 13598018856492162040239554477268290);
    assert(fib(166) == 22002056689466296922983322104048463);
    assert(fib(167) == 35600075545958458963222876581316753);
    assert(fib(168) == 57602132235424755886206198685365216);
    assert(fib(169) == 93202207781383214849429075266681969);
    assert(fib(170) == 150804340016807970735635273952047185);
    assert(fib(171) == 244006547798191185585064349218729154);
    assert(fib(172) == 394810887814999156320699623170776339);
    assert(fib(173) == 638817435613190341905763972389505493);
    assert(fib(174) == 1033628323428189498226463595560281832);
    assert(fib(175) == 1672445759041379840132227567949787325);
    assert(fib(176) == 2706074082469569338358691163510069157);
    assert(fib(177) == 4378519841510949178490918731459856482);
    assert(fib(178) == 7084593923980518516849609894969925639);
    assert(fib(179) == 11463113765491467695340528626429782121);
    assert(fib(180) == 18547707689471986212190138521399707760);
    assert(fib(181) == 30010821454963453907530667147829489881);
    assert(fib(182) == 48558529144435440119720805669229197641);
    assert(fib(183) == 78569350599398894027251472817058687522);
    assert(fib(184) == 127127879743834334146972278486287885163);
    assert(fib(185) == 205697230343233228174223751303346572685);
    assert(fib(186) == 332825110087067562321196029789634457848);
}

/// The 186th Fibonacci number, the largest the iteration below can
/// produce; it still fits in a u128.
pub proof fn lemma_fib_186()
    ensures
        fib(186) == 332825110087067562321196029789634457848,
{
    lemma_fib_values_d();
}

/// Iterate the Fibonacci recurrence `n` times and return the sum of
/// the last pair, which is the (n+2)-nd Fibonacci number; a
/// non-positive count leaves the initial pair, whose sum is 1. The
/// bound on `n` is the machine limit: F(187) overflows u128.
pub fn fib_iter(n: i32) -> (r: u128)
    requires
        n <= 184,
    ensures
        n >= 0 ==> r == fib((n + 2) as nat),
        n < 0 ==> r == 1,
{
    let mut x: u128 = 0;
    let mut y: u128 = 1;
    let mut i: i32 = 0;
    while i < n
        invariant
            0 <= i,
            i <= 184,
            n <= 184,
            n >= 0 ==> i <= n,
            n < 0 ==> i == 0,
            x == fib(i as nat),
            y == fib((i + 1) as nat),
        decreases n - i,
    {
        proof {
            lemma_fib_monotone((i + 2) as nat, 186);
            lemma_fib_186();
            assert(fib((i + 2) as nat) == fib((i + 1) as nat) + fib(i as nat));
        }
        let t = y;
        y = x + y;
        x = t;
        i = i + 1;
    }
    proof {
        lemma_fib_monotone((i + 2) as nat, 186);
        lemma_fib_186();
        assert(fib((i + 2) as nat) == fib((i + 1) as nat) + fib(i as nat));
        assert(fib(0) == 0);
        assert(fib(1) == 1);
    }
    x + y
}

/// One more than the argument.
pub fn plus_one(x: i32) -> (r: i32)
    requires
        x < i32::MAX,
    ensures
        r == x + 1,
{
    x + 1
}

} // verus!
