//! The `nordlayer` client binary and how a finished run of it is read.
use vstd::prelude::*;
use vstd::string::{StrSliceExecFns, StringExecFns};
use crate::text::{chars_of, join, trim, trim_span};

verus! {

/// The texts of a list of arguments.
pub open spec fn arg_texts(args: Seq<&str>) -> Seq<Seq<char>> {
    args.map_values(|a: &str| a@)
}

/// The binary that is run when none is configured.
pub open spec fn default_binary() -> Seq<char> {
    "nordlayer"@
}

/// The error of a run that exited unsuccessfully: its trimmed standard
/// error, or, when that is blank, the command line that failed.
pub open spec fn failure_message(bin: Seq<char>, args: Seq<Seq<char>>, stderr: Seq<char>) -> Seq<char> {
    if trim(stderr).len() == 0 {
        "command failed: "@ + bin + " "@ + join(args, " "@)
    } else {
        trim(stderr)
    }
}

/// The `nordlayer` command-line client.
#[derive(Debug, Clone)]
pub struct NordLayerCli {
    bin: String,
}

impl NordLayerCli {
    /// The binary this client runs.
    pub closed spec fn binary(&self) -> Seq<char> {
        self.bin@
    }

    /// A client for the configured binary (the `NORDLAYER_BIN` setting), or
    /// for `nordlayer` when none is configured.
    pub fn with_binary(configured: Option<String>) -> (r: Self)
        ensures
            r.binary() == match configured {
                Some(b) => b@,
                None => default_binary(),
            },
    {
        match configured {
            Some(b) => NordLayerCli { bin: b },
            None => NordLayerCli { bin: "nordlayer".to_owned() },
        }
    }

    /// The binary this client runs.
    pub fn bin(&self) -> (r: &str)
        ensures
            r@ == self.binary(),
    {
        self.bin.as_str()
    }

    /// The error when the binary cannot be started.
    pub fn start_failure_message(&self) -> (r: String)
        ensures
            r@ == "failed to start '"@ + self.binary() + "'"@,
    {
        let mut m = "failed to start '".to_owned();
        m.append(self.bin.as_str());
        m.append("'");
        m
    }

    /// What a finished run of `bin args..` gives: its trimmed standard
    /// output when it exited successfully, else the failure message.
    pub fn run_outcome(&self, args: &[&str], success: bool, stdout: &str, stderr: &str) -> (r: Result<
        String,
        String,
    >)
        ensures
            success ==> (r matches Ok(out) && out@ == trim(stdout@)),
            !success ==> (r matches Err(e) && e@ == failure_message(
                self.binary(),
                arg_texts(args@),
                stderr@,
            )),
    {
        if success {
            let v = chars_of(stdout);
            let n = v.len();
            let (a, b) = trim_span(&v, 0, n);
            assert(v@.subrange(0, n as int) =~= v@);
            return Ok(stdout.substring_char(a, b).to_owned());
        }
        let e = chars_of(stderr);
        let n = e.len();
        let (a, b) = trim_span(&e, 0, n);
        assert(e@.subrange(0, n as int) =~= e@);
        if a < b {
            return Err(stderr.substring_char(a, b).to_owned());
        }
        let mut m = "command failed: ".to_owned();
        m.append(self.bin.as_str());
        m.append(" ");
        let ghost prefix = m@;
        let ghost texts = arg_texts(args@);
        let mut i: usize = 0;
        assert(texts.take(0) =~= Seq::<Seq<char>>::empty());
        while i < args.len()
            invariant
                i <= args.len(),
                texts == arg_texts(args@),
                m@ == prefix + join(texts.take(i as int), " "@),
            decreases args.len() - i,
        {
            let ghost before = m@;
            if i > 0 {
                m.append(" ");
            }
            m.append(args[i]);
            assert(texts.take(i + 1).drop_last() =~= texts.take(i as int));
            assert(texts.take(i + 1).last() == args@[i as int]@);
            if i == 0 {
                assert(join(texts.take(1), " "@) == texts.take(1)[0]);
            }
            assert(m@ =~= prefix + join(texts.take(i + 1), " "@));
            i = i + 1;
        }
        assert(texts.take(args.len() as int) =~= texts);
        Err(m)
    }
}

} // verus!
