//! Process configuration: the shared secret, the bind address, and the
//! parameters of the two storage backends. The values are read from the
//! environment outside the library, handed in once as plain strings, and
//! immutable afterwards.

use vstd::prelude::*;

verus! {

/// The configuration the process starts with.
pub struct Config {
    pub secret: String,
    pub host: String,
    pub port: String,
    pub database_host: String,
    pub database_user: String,
    pub database_password: String,
    pub database_port: String,
    pub file_path: String,
}

impl Config {
    /// Bundles the configuration values into one immutable record.
    #[allow(clippy::too_many_arguments)]
    pub fn new(
        secret: String,
        host: String,
        port: String,
        database_host: String,
        database_user: String,
        database_password: String,
        database_port: String,
        file_path: String,
    ) -> (r: Config)
        ensures
            r.secret == secret,
            r.host == host,
            r.port == port,
            r.database_host == database_host,
            r.database_user == database_user,
            r.database_password == database_password,
            r.database_port == database_port,
            r.file_path == file_path,
    {
        Config {
            secret,
            host,
            port,
            database_host,
            database_user,
            database_password,
            database_port,
            file_path,
        }
    }

    /// The key-value connection line for the database backend.
    pub fn connection_string(&self) -> (r: String)
        ensures
            r@ == "host="@ + self.database_host@ + " user="@ + self.database_user@
                + " password="@ + self.database_password@ + " port="@ + self.database_port@,
    {
        let mut s = "host=".to_owned();
        s.append(self.database_host.as_str());
        s.append(" user=");
        s.append(self.database_user.as_str());
        s.append(" password=");
        s.append(self.database_password.as_str());
        s.append(" port=");
        s.append(self.database_port.as_str());
        proof {
            assert(s@ =~= "host="@ + self.database_host@ + " user="@ + self.database_user@
                + " password="@ + self.database_password@ + " port="@ + self.database_port@);
        }
        s
    }

    /// The address the listener binds to, as `host:port`.
    pub fn bind_address(&self) -> (r: String)
        ensures
            r@ == self.host@ + ":"@ + self.port@,
    {
        let mut s = self.host.clone();
        s.append(":");
        s.append(self.port.as_str());
        proof {
            assert(s@ =~= self.host@ + ":"@ + self.port@);
        }
        s
    }

    /// The key-value description line for the file backend.
    pub fn file_path(&self) -> (r: String)
        ensures
            r@ == "file_path="@ + self.file_path@,
    {
        let mut s = "file_path=".to_owned();
        s.append(self.file_path.as_str());
        proof {
            assert(s@ =~= "file_path="@ + self.file_path@);
        }
        s
    }
}

} // verus!
