use vstd::prelude::*;
use vstd::string::*;

verus! {

/// The decimal digit `d` (0 to 9) as a character.
pub open spec fn digit_char(d: nat) -> char {
    seq!['0', '1', '2', '3', '4', '5', '6', '7', '8', '9'][d as int]
}

/// The decimal digits of `n`, most significant first, without leading zeros.
pub open spec fn digits(n: nat) -> Seq<char>
    decreases n,
{
    if n < 10 {
        seq![digit_char(n)]
    } else {
        digits(n / 10).push(digit_char(n % 10))
    }
}

/// The decimal text of `n`, with a leading `-` when it is negative.
pub open spec fn decimal(n: int) -> Seq<char> {
    if n < 0 {
        seq!['-'] + digits((-n) as nat)
    } else {
        digits(n as nat)
    }
}

fn digit_str(d: u64) -> (r: &'static str)
    requires
        d < 10,
    ensures
        r@ == seq![digit_char(d as nat)],
{
    proof {
        reveal_strlit("0");
        reveal_strlit("1");
        reveal_strlit("2");
        reveal_strlit("3");
        reveal_strlit("4");
        reveal_strlit("5");
        reveal_strlit("6");
        reveal_strlit("7");
        reveal_strlit("8");
        reveal_strlit("9");
    }
    let r = match d {
        0 => "0",
        1 => "1",
        2 => "2",
        3 => "3",
        4 => "4",
        5 => "5",
        6 => "6",
        7 => "7",
        8 => "8",
        _ => "9",
    };
    assert(r@ =~= seq![digit_char(d as nat)]);
    r
}

fn digits_of(n: u64) -> (r: String)
    ensures
        r@ == digits(n as nat),
    decreases n,
{
    if n < 10 {
        String::from_str(digit_str(n))
    } else {
        let mut s = digits_of(n / 10);
        s.append(digit_str(n % 10));
        assert(s@ =~= digits(n as nat));
        s
    }
}

/// The decimal text of a container id.
pub fn decimal_of(n: i64) -> (r: String)
    ensures
        r@ == decimal(n as int),
{
    if n < 0 {
        let m: u64 = ((-(n + 1)) as u64) + 1;
        proof {
            reveal_strlit("-");
        }
        let mut s = String::from_str("-");
        let d = digits_of(m);
        s.append(d.as_str());
        assert(s@ =~= decimal(n as int));
        s
    } else {
        digits_of(n as u64)
    }
}

/// The command that moves container `id` to workspace `ws`, creating the
/// workspace when it does not exist.
pub open spec fn move_container_cmd(id: i64, ws: Seq<char>) -> Seq<char> {
    "[con_id="@ + decimal(id as int) + "] move container to workspace "@ + ws
}

pub fn move_container_command(id: i64, ws: &str) -> (r: String)
    ensures
        r@ == move_container_cmd(id, ws@),
{
    let mut s = String::from_str("[con_id=");
    let d = decimal_of(id);
    s.append(d.as_str());
    s.append("] move container to workspace ");
    s.append(ws);
    assert(s@ =~= move_container_cmd(id, ws@));
    s
}

/// The text of every command of a batch.
pub open spec fn texts(v: Seq<String>) -> Seq<Seq<char>> {
    v.map_values(|s: String| s@)
}

/// The commands of a batch joined into one request, each separated from the
/// next by `"; "`.
pub open spec fn joined(cmds: Seq<Seq<char>>) -> Seq<char>
    decreases cmds.len(),
{
    if cmds.len() == 0 {
        Seq::empty()
    } else if cmds.len() == 1 {
        cmds[0]
    } else {
        joined(cmds.drop_last()) + "; "@ + cmds.last()
    }
}

/// Joins a batch of commands into the single request that submits them all.
pub fn join_commands(cmds: &Vec<String>) -> (r: String)
    ensures
        r@ == joined(texts(cmds@)),
{
    let mut s = String::new();
    let mut i: usize = 0;
    while i < cmds.len()
        invariant
            i <= cmds.len(),
            s@ == joined(texts(cmds@).take(i as int)),
        decreases cmds.len() - i,
    {
        assert(texts(cmds@).take(i as int + 1).drop_last() =~= texts(cmds@).take(i as int));
        if i > 0 {
            s.append("; ");
        }
        s.append(cmds[i].as_str());
        assert(s@ =~= joined(texts(cmds@).take(i as int + 1)));
        i = i + 1;
    }
    assert(texts(cmds@).take(i as int) =~= texts(cmds@));
    s
}

/// What the window manager reports for one command of a submitted batch.
#[derive(Debug)]
pub struct CommandOutcome {
    pub success: bool,
    pub error: Option<String>,
}

/// The message reported for a failed command that came without one.
pub open spec fn missing_message() -> Seq<char> {
    "No error message, but errored"@
}

/// `i` is the position of the first failed command.
pub open spec fn is_first_failure(outcomes: Seq<CommandOutcome>, i: int) -> bool {
    &&& 0 <= i < outcomes.len()
    &&& !outcomes[i].success
    &&& forall|j: int| 0 <= j < i ==> outcomes[j].success
}

/// The message that a failed command stands for.
pub open spec fn failure_message(o: CommandOutcome) -> Seq<char> {
    match o.error {
        Some(e) => e@,
        None => missing_message(),
    }
}

/// The message of the first command of a batch that failed, if any failed.
pub fn first_failure(outcomes: &Vec<CommandOutcome>) -> (r: Option<String>)
    ensures
        r is None <==> forall|j: int| 0 <= j < outcomes@.len() ==> outcomes@[j].success,
        match r {
            Some(m) => exists|i: int|
                is_first_failure(outcomes@, i) && m@ == failure_message(outcomes@[i]),
            None => true,
        },
{
    let mut i: usize = 0;
    while i < outcomes.len()
        invariant
            i <= outcomes.len(),
            forall|j: int| 0 <= j < i ==> outcomes@[j].success,
        decreases outcomes.len() - i,
    {
        if !outcomes[i].success {
            let m = match &outcomes[i].error {
                Some(e) => e.clone(),
                None => String::from_str("No error message, but errored"),
            };
            assert(is_first_failure(outcomes@, i as int));
            return Some(m);
        }
        i = i + 1;
    }
    None
}

} // verus!
