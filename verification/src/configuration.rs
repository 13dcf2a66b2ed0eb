//! The options of a load test that its manager goes by.
use vstd::prelude::*;
use vstd::string::StringExecFns;

verus! {

/// The options that the manager of a distributed load test reads.
#[derive(Debug)]
pub struct GooseConfiguration {
    /// How many workers the manager waits for before the load test starts.
    pub expect_workers: u16,
    /// The host on which the manager listens for workers.
    pub manager_bind_host: String,
    /// The port on which the manager listens for workers.
    pub manager_bind_port: u16,
    /// Whether a worker that runs a different load test is accepted all the same.
    pub no_hash_check: bool,
    /// Whether statistics are displayed only when the load test is over.
    pub only_summary: bool,
    /// Whether status codes are counted.
    pub status_codes: bool,
}

impl Clone for GooseConfiguration {
    fn clone(&self) -> (copy: Self)
        ensures
            copy == *self,
    {
        GooseConfiguration {
            expect_workers: self.expect_workers,
            manager_bind_host: self.manager_bind_host.clone(),
            manager_bind_port: self.manager_bind_port,
            no_hash_check: self.no_hash_check,
            only_summary: self.only_summary,
            status_codes: self.status_codes,
        }
    }
}

impl Default for GooseConfiguration {
    fn default() -> (config: Self)
        ensures
            config.expect_workers == 0,
            config.manager_bind_host@ == Seq::<char>::empty(),
            config.manager_bind_port == 0,
            !config.no_hash_check,
            !config.only_summary,
            !config.status_codes,
    {
        GooseConfiguration {
            expect_workers: 0,
            manager_bind_host: String::new(),
            manager_bind_port: 0,
            no_hash_check: false,
            only_summary: false,
            status_codes: false,
        }
    }
}

/// The decimal digit that stands for `d`.
pub open spec fn digit(d: nat) -> char {
    if d == 0 {
        '0'
    } else if d == 1 {
        '1'
    } else if d == 2 {
        '2'
    } else if d == 3 {
        '3'
    } else if d == 4 {
        '4'
    } else if d == 5 {
        '5'
    } else if d == 6 {
        '6'
    } else if d == 7 {
        '7'
    } else if d == 8 {
        '8'
    } else {
        '9'
    }
}

/// `n` in decimal, without leading zeros.
pub open spec fn decimal(n: nat) -> Seq<char>
    decreases n,
{
    if n < 10 {
        seq![digit(n)]
    } else {
        decimal(n / 10).push(digit(n % 10))
    }
}

/// The text of a decimal digit.
fn digit_text(d: u16) -> (text: &'static str)
    requires
        d < 10,
    ensures
        text@ == seq![digit(d as nat)],
{
    proof {
        reveal_strlit("0");
        reveal_strlit("1");
        reveal_strlit("2");
        reveal_strlit("3");
        reveal_strlit("4");
        reveal_strlit("5");
        reveal_strlit("6");
        reveal_strlit("7");
        reveal_strlit("8");
        reveal_strlit("9");
    }
    let text = match d {
        0 => "0",
        1 => "1",
        2 => "2",
        3 => "3",
        4 => "4",
        5 => "5",
        6 => "6",
        7 => "7",
        8 => "8",
        _ => "9",
    };
    assert(text@ =~= seq![digit(d as nat)]);
    text
}

/// The text of a number in decimal.
fn decimal_text(n: u16) -> (text: String)
    ensures
        text@ == decimal(n as nat),
    decreases n,
{
    if n < 10 {
        String::from_str(digit_text(n))
    } else {
        let text = decimal_text(n / 10).concat(digit_text(n % 10));
        assert(text@ =~= decimal((n / 10) as nat).push(digit((n % 10) as nat)));
        text
    }
}

/// The address on which the manager listens: the host and the port it is configured to bind to.
pub open spec fn tcp_address(host: Seq<char>, port: nat) -> Seq<char> {
    "tcp://"@ + host + ":"@ + decimal(port)
}

impl GooseConfiguration {
    /// The TCP address on which the manager listens for workers.
    pub fn manager_address(&self) -> (address: String)
        ensures
            address@ == tcp_address(self.manager_bind_host@, self.manager_bind_port as nat),
    {
        let port = decimal_text(self.manager_bind_port);
        String::from_str("tcp://").concat(self.manager_bind_host.as_str()).concat(":").concat(
            port.as_str(),
        )
    }
}

} // verus!
