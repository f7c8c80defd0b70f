//! Where the database is, and the address that leads there.

use vstd::prelude::*;
use vstd::string::*;
use crate::text::{decimal, push_decimal};

verus! {

/// How to reach the database: a ready address, or its parts.
#[derive(Debug)]
pub struct Database {
    pub url: Option<String>,
    pub host: Option<String>,
    pub port: Option<u16>,
    pub name: Option<String>,
    pub user: Option<String>,
    pub password: Option<String>,
    pub params: Vec<(String, String)>,
}

/// `text` where it is given, else `otherwise`.
pub open spec fn text_or(text: Option<String>, otherwise: Seq<char>) -> Seq<char> {
    match text {
        Some(t) => t@,
        None => otherwise,
    }
}

/// `&key=value`, or nothing where no value is given.
pub open spec fn option_text(key: Seq<char>, value: Option<Seq<char>>) -> Seq<char> {
    match value {
        Some(v) => "&"@ + key + "="@ + v,
        None => Seq::empty(),
    }
}

/// The further parameters, each as `&key=value`, in order.
pub open spec fn params_text(params: Seq<(String, String)>) -> Seq<char>
    decreases params.len(),
{
    if params.len() == 0 {
        Seq::empty()
    } else {
        params_text(params.drop_last()) + "&"@ + params.last().0@ + "="@ + params.last().1@
    }
}

/// The port in decimal, where one is given.
pub open spec fn port_text(port: Option<u16>) -> Option<Seq<char>> {
    match port {
        Some(p) => Some(decimal(p as nat)),
        None => None,
    }
}

/// The text of an optional string.
pub open spec fn view_of(text: Option<String>) -> Option<Seq<char>> {
    match text {
        Some(t) => Some(t@),
        None => None,
    }
}

/// The address of the database: the ready one where given, else one put
/// together from the name, the host (`localhost` by default), and then
/// port, user, password and further parameters as far as they are given.
pub open spec fn url_text(db: Database) -> Seq<char> {
    match db.url {
        Some(url) => url@,
        None => "postgresql://"@ + "/"@ + text_or(db.name, Seq::empty()) + "?host="@ + text_or(
            db.host,
            "localhost"@,
        ) + option_text("port"@, port_text(db.port)) + option_text("user"@, view_of(db.user))
            + option_text("password"@, view_of(db.password)) + params_text(db.params@),
    }
}

impl Database {
    /// The address to connect to. Without a ready address the name of the
    /// database has to be given.
    pub fn connection_url(&self) -> (url: String)
        requires
            self.url.is_some() || self.name.is_some(),
        ensures
            url@ == url_text(*self),
    {
        if let Some(url) = &self.url {
            return url.clone();
        }
        let mut url = "postgresql://".to_string();
        url.append("/");
        match &self.name {
            Some(name) => url.append(name.as_str()),
            None => {},
        }
        url.append("?host=");
        match &self.host {
            Some(host) => url.append(host.as_str()),
            None => url.append("localhost"),
        }
        if let Some(port) = self.port {
            url.append("&");
            url.append("port");
            url.append("=");
            push_decimal(&mut url, port as u64);
        }
        if let Some(user) = &self.user {
            url.append("&");
            url.append("user");
            url.append("=");
            url.append(user.as_str());
        }
        if let Some(password) = &self.password {
            url.append("&");
            url.append("password");
            url.append("=");
            url.append(password.as_str());
        }
        let ghost base = url@;
        assert(base =~= "postgresql://"@ + "/"@ + text_or(self.name, Seq::empty()) + "?host="@
            + text_or(self.host, "localhost"@) + option_text("port"@, port_text(self.port))
            + option_text("user"@, view_of(self.user)) + option_text(
            "password"@,
            view_of(self.password),
        ));
        let mut i: usize = 0;
        assert(url@ =~= base + params_text(self.params@.take(0)));
        while i < self.params.len()
            invariant
                i <= self.params.len(),
                url@ == base + params_text(self.params@.take(i as int)),
            decreases self.params.len() - i,
        {
            let pair = &self.params[i];
            url.append("&");
            url.append(pair.0.as_str());
            url.append("=");
            url.append(pair.1.as_str());
            proof {
                let upto = self.params@.take(i as int + 1);
                assert(upto.last() == self.params@[i as int]);
                assert(upto.drop_last() =~= self.params@.take(i as int));
                assert(url@ =~= base + params_text(upto));
            }
            i += 1;
        }
        assert(self.params@.take(i as int) =~= self.params@);
        url
    }
}

} // verus!
