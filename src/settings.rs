use vstd::prelude::*;

verus! {

/// A command-line option: its long and short names, the numbers it takes by
/// default (one per value it expects) and a line of help.
pub struct Setting {
    name: &'static str,
    short: &'static str,
    default: Vec<u32>,
    help: &'static str,
    set_by_user: bool,
}

impl Setting {
    pub closed spec fn spec_name(&self) -> Seq<char> {
        self.name@
    }

    pub closed spec fn spec_default(&self) -> Seq<u32> {
        self.default@
    }

    pub closed spec fn spec_set_by_user(&self) -> bool {
        self.set_by_user
    }

    pub fn name(&self) -> (r: &'static str)
        ensures
            r@ == self.spec_name(),
    {
        self.name
    }

    pub fn short(&self) -> &'static str {
        self.short
    }

    pub fn help(&self) -> &'static str {
        self.help
    }

    pub fn default(&self) -> (r: &Vec<u32>)
        ensures
            r@ == self.spec_default(),
    {
        &self.default
    }
}

/// The long name of option `k`.
pub open spec fn option_name(k: int) -> Seq<char> {
    if k == 0 {
        "--square-size"@
    } else if k == 1 {
        "--window-size"@
    } else {
        "--model-size"@
    }
}

/// The default values of option `k`; their count is the number of values
/// the option takes.
pub open spec fn option_default(k: int) -> Seq<u32> {
    if k == 0 {
        seq![10u32]
    } else if k == 1 {
        seq![500u32, 300u32]
    } else {
        seq![50u32, 30u32]
    }
}

pub open spec fn option_defaults() -> Seq<Seq<u32>> {
    seq![option_default(0), option_default(1), option_default(2)]
}

/// The options the program accepts.
pub fn get_settings() -> (r: Vec<Setting>)
    ensures
        r@.len() == 3,
        forall|k: int| 0 <= k < 3 ==> {
            &&& (#[trigger] r@[k]).spec_name() == option_name(k)
            &&& r@[k].spec_default() == option_default(k)
            &&& !r@[k].spec_set_by_user()
        },
{
    let mut r: Vec<Setting> = Vec::new();
    r.push(Setting {
        name: "--square-size",
        short: "-s",
        default: vec![10],
        help: "Defines the size of an individual cell, in pixels.",
        set_by_user: false,
    });
    r.push(Setting {
        name: "--window-size",
        short: "-w",
        default: vec![500, 300],
        help: "Defines the size of the window in pixels.",
        set_by_user: false,
    });
    r.push(Setting {
        name: "--model-size",
        short: "-m",
        default: vec![50, 30],
        help: "Defines the size of the grid model.",
        set_by_user: false,
    });
    assert(r@[0].default@ =~= option_default(0));
    assert(r@[1].default@ =~= option_default(1));
    assert(r@[2].default@ =~= option_default(2));
    r
}

/// The value of a string of decimal digits, read most significant first.
pub open spec fn digits_value(d: Seq<char>) -> nat
    decreases d.len(),
{
    if d.len() == 0 {
        0
    } else {
        digits_value(d.drop_last()) * 10 + (d.last() as nat - '0' as nat) as nat
    }
}

/// The number a string denotes as an unsigned 32-bit integer: an optional
/// `+`, then one or more ASCII digits, of value at most `u32::MAX`.
pub open spec fn decimal_u32(s: Seq<char>) -> Option<u32> {
    let d = if s.len() > 0 && s[0] == '+' { s.drop_first() } else { s };
    if d.len() > 0 && (forall|i: int| 0 <= i < d.len() ==> '0' <= #[trigger] d[i] <= '9')
        && digits_value(d) <= u32::MAX {
        Some(digits_value(d) as u32)
    } else {
        None
    }
}

/// Relies on `str::parse::<u32>` (`u32::from_str`), which accepts exactly an
/// optional `+` followed by decimal digits whose value fits in a `u32`.
#[verifier::external_body]
fn parse_u32(s: &String) -> (r: Option<u32>)
    ensures
        r == decimal_u32(s@),
{
    s.parse::<u32>().ok()
}

/// The message for an argument that names no option.
pub open spec fn invalid_argument() -> Seq<char> {
    "Invalid argument."@
}

/// The message for an option without enough numbers after it.
pub open spec fn not_an_integer() -> Seq<char> {
    "Argument must be an integer."@
}

/// The index of the option named `a`, if any.
pub open spec fn option_index(a: Seq<char>) -> Option<int> {
    if a == option_name(0) {
        Some(0)
    } else if a == option_name(1) {
        Some(1)
    } else if a == option_name(2) {
        Some(2)
    } else {
        None
    }
}

/// Whether the `n` arguments after position `i` are all numbers.
pub open spec fn numbers_follow(args: Seq<Seq<char>>, i: int, n: int) -> bool {
    i + n < args.len() && forall|t: int| 0 <= t < n ==> (#[trigger] decimal_u32(args[i + 1 + t])) is Some
}

/// The values of each option after reading the arguments from position `i`
/// on, starting from `vals`: an option's name is followed by as many numbers
/// as it takes, and a later occurrence replaces an earlier one.
pub open spec fn parse_args(args: Seq<Seq<char>>, i: int, vals: Seq<Seq<u32>>) -> Result<Seq<Seq<u32>>, Seq<char>>
    decreases args.len() - i,
{
    if i < 0 || i >= args.len() {
        Ok(vals)
    } else {
        match option_index(args[i]) {
            None => Err(invalid_argument()),
            Some(k) => {
                let n = option_default(k).len() as int;
                if numbers_follow(args, i, n) {
                    parse_args(args, i + 1 + n, vals.update(k,
                        Seq::new(n as nat, |t: int| decimal_u32(args[i + 1 + t])->Some_0)))
                } else {
                    Err(not_an_integer())
                }
            },
        }
    }
}

/// Reads the command line `args`, whose first item is the program's path:
/// the values of the three options, in the order of `get_settings`, each
/// left at its default where the command line does not set it.
pub fn from_args(args: &Vec<String>) -> (r: Result<Vec<Vec<u32>>, String>)
    ensures
        match (r, parse_args(args@.map_values(|a: String| a@), 1, option_defaults())) {
            (Ok(v), Ok(w)) => v@.len() == w.len() && forall|k: int| 0 <= k < w.len() ==> (#[trigger] v@[k])@ == w[k],
            (Err(e), Err(m)) => e@ == m,
            _ => false,
        },
{
    let ghost a = args@.map_values(|s: String| s@);
    let settings = get_settings();
    let mut vals: Vec<Vec<u32>> = Vec::new();
    let mut k: usize = 0;
    while k < settings.len()
        invariant
            settings@.len() == 3,
            forall|j: int| 0 <= j < 3 ==> (#[trigger] settings@[j]).spec_default() == option_default(j),
            k <= 3,
            vals@.len() == k,
            forall|j: int| 0 <= j < k ==> (#[trigger] vals@[j])@ == option_default(j),
        decreases 3 - k,
    {
        vals.push(settings[k].default.clone());
        k = k + 1;
    }
    assert(vals@.map_values(|v: Vec<u32>| v@) =~= option_defaults());
    let mut i: usize = 1;
    while i < args.len()
        invariant
            a == args@.map_values(|s: String| s@),
            settings@.len() == 3,
            forall|j: int| 0 <= j < 3 ==> (#[trigger] settings@[j]).spec_default() == option_default(j),
            forall|j: int| 0 <= j < 3 ==> (#[trigger] settings@[j]).spec_name() == option_name(j),
            1 <= i,
            vals@.len() == 3,
            parse_args(a, 1, option_defaults()) == parse_args(a, i as int, vals@.map_values(|v: Vec<u32>| v@)),
        decreases args.len() - i,
    {
        let ghost before = vals@.map_values(|v: Vec<u32>| v@);
        let mut found: usize = 3;
        let mut k: usize = 0;
        while k < 3
            invariant
                settings@.len() == 3,
                forall|j: int| 0 <= j < 3 ==> (#[trigger] settings@[j]).spec_name() == option_name(j),
                k <= 3,
                found == 3 || (found < k && a[i as int] == option_name(found as int)),
                found == 3 ==> forall|j: int| 0 <= j < k ==> a[i as int] != option_name(j),
                forall|j: int| 0 <= j < found && j < k ==> a[i as int] != option_name(j),
                a == args@.map_values(|s: String| s@),
                i < args@.len(),
            decreases 3 - k,
        {
            if found == 3 && args[i] == settings[k].name.to_owned() {
                found = k;
            }
            k = k + 1;
        }
        if found == 3 {
            return Err("Invalid argument.".to_owned());
        }
        assert(option_index(a[i as int]) == Some(found as int));
        let n = settings[found].default.len();
        let mut values: Vec<u32> = Vec::new();
        let mut t: usize = 0;
        while t < n
            invariant
                a == args@.map_values(|s: String| s@),
                n == option_default(found as int).len(),
                1 <= i < args@.len(),
                t <= n,
                values@.len() == t,
                i + 1 + t <= args@.len(),
                vals@.map_values(|v: Vec<u32>| v@) == before,
                parse_args(a, 1, option_defaults()) == parse_args(a, i as int, before),
                option_index(a[i as int]) == Some(found as int),
                forall|u: int| 0 <= u < t ==> (#[trigger] decimal_u32(a[i + 1 + u])) == Some(values@[u]),
            decreases n - t,
        {
            if t >= args.len() - i - 1 {
                proof {
                    assert(!numbers_follow(a, i as int, n as int));
                    assert(parse_args(a, i as int, before) == Err::<Seq<Seq<u32>>, Seq<char>>(not_an_integer()));
                }
                return Err("Argument must be an integer.".to_owned());
            }
            match parse_u32(&args[i + 1 + t]) {
                Some(v) => values.push(v),
                None => {
                    proof {
                        assert(decimal_u32(a[i + 1 + t]) is None);
                        assert(!numbers_follow(a, i as int, n as int));
                        assert(parse_args(a, i as int, before) == Err::<Seq<Seq<u32>>, Seq<char>>(not_an_integer()));
                    }
                    return Err("Argument must be an integer.".to_owned());
                },
            }
            t = t + 1;
        }
        assert(numbers_follow(a, i as int, n as int));
        assert(values@ =~= Seq::new(n as nat, |u: int| decimal_u32(a[i + 1 + u])->Some_0));
        vals.set(found, values);
        assert(vals@.map_values(|v: Vec<u32>| v@) =~= before.update(found as int,
            Seq::new(n as nat, |u: int| decimal_u32(a[i + 1 + u])->Some_0)));
        i = i + 1 + n;
    }
    Ok(vals)
}

} // verus!
