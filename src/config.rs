use vstd::prelude::*;

verus! {

/// Settings of the indexer.
#[derive(Debug, Clone, PartialEq, Eq)]
pub struct Config {
    pub sui_json_rpc: SuiJsonRpcConfig,
    pub sui_contract: SuiContractConfig,
    pub backend: BackendConfig,
}

/// Where the chain node answers, over HTTP and over websockets.
#[derive(Debug, Clone, PartialEq, Eq)]
pub struct SuiJsonRpcConfig {
    pub http_url: String,
    pub ws_url: String,
}

/// The package whose events are followed.
#[derive(Debug, Clone, PartialEq, Eq)]
pub struct SuiContractConfig {
    pub address: String,
}

/// Where the entity store's service listens.
#[derive(Debug, Clone, PartialEq, Eq)]
pub struct BackendConfig {
    pub host: String,
    pub port: u16,
}

/// The deployment a configuration is read for.
#[derive(Debug, Clone, Copy, PartialEq, Eq)]
pub enum Environment {
    Local,
    Production,
}

/// The character of a decimal digit.
pub open spec fn digit_char(d: nat) -> char {
    if d == 0 {
        '0'
    } else if d == 1 {
        '1'
    } else if d == 2 {
        '2'
    } else if d == 3 {
        '3'
    } else if d == 4 {
        '4'
    } else if d == 5 {
        '5'
    } else if d == 6 {
        '6'
    } else if d == 7 {
        '7'
    } else if d == 8 {
        '8'
    } else {
        '9'
    }
}

/// The decimal notation of a number, without leading zeros.
pub open spec fn decimal(n: nat) -> Seq<char>
    decreases n,
{
    if n < 10 {
        seq![digit_char(n)]
    } else {
        decimal(n / 10).push(digit_char(n % 10))
    }
}

fn digit_str(d: u16) -> (r: &'static str)
    requires
        d < 10,
    ensures
        r@ =~= seq![digit_char(d as nat)],
{
    proof {
        reveal_strlit("0");
        reveal_strlit("1");
        reveal_strlit("2");
        reveal_strlit("3");
        reveal_strlit("4");
        reveal_strlit("5");
        reveal_strlit("6");
        reveal_strlit("7");
        reveal_strlit("8");
        reveal_strlit("9");
    }
    if d == 0 {
        "0"
    } else if d == 1 {
        "1"
    } else if d == 2 {
        "2"
    } else if d == 3 {
        "3"
    } else if d == 4 {
        "4"
    } else if d == 5 {
        "5"
    } else if d == 6 {
        "6"
    } else if d == 7 {
        "7"
    } else if d == 8 {
        "8"
    } else {
        "9"
    }
}

/// The decimal notation of a port number.
pub fn decimal_string(n: u16) -> (r: String)
    ensures
        r@ == decimal(n as nat),
    decreases n,
{
    if n < 10 {
        return String::from_str(digit_str(n));
    }
    let mut s = decimal_string(n / 10);
    s.append(digit_str(n % 10));
    s
}

impl BackendConfig {
    /// The address of the store's GraphQL endpoint.
    pub fn graphql_url(&self) -> (r: String)
        ensures
            r@ == "http://"@ + self.host@ + ":"@ + decimal(self.port as nat) + "/graphql"@,
    {
        let mut s = String::from_str("http://");
        s.append(self.host.as_str());
        s.append(":");
        let port = decimal_string(self.port);
        s.append(port.as_str());
        s.append("/graphql");
        s
    }
}

impl Environment {
    /// The environment's name, which also names its settings file.
    pub open spec fn name(self) -> Seq<char> {
        match self {
            Environment::Local => "local"@,
            Environment::Production => "production"@,
        }
    }

    /// The environment's name.
    pub fn as_str(&self) -> (r: &'static str)
        ensures
            r@ == self.name(),
    {
        match self {
            Environment::Local => "local",
            Environment::Production => "production",
        }
    }

    /// The environment with this name; any other text is refused and handed back.
    pub fn from_str(s: &str) -> (r: Result<Environment, String>)
        ensures
            match r {
                Ok(e) => e.name() == s@,
                Err(t) => t@ == s@ && s@ != "local"@ && s@ != "production"@,
            },
    {
        let t = String::from_str(s);
        if t == String::from_str("local") {
            Ok(Environment::Local)
        } else if t == String::from_str("production") {
            Ok(Environment::Production)
        } else {
            Err(t)
        }
    }
}

} // verus!
