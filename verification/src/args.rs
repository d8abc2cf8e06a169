//! Run configuration: the two mapping-file schema modes, the target
//! database kind, and the validated argument set.

use vstd::prelude::*;

verus! {

use crate::dialect::DialectType;
use crate::text::{spec_lower, str_eq_str, to_ascii_lower};
use vstd::string::StringExecFns;

/// Which mapping-file schema is parsed.
#[derive(Clone, Copy, PartialEq, Eq, Structural, Debug)]
pub enum XBatisMode {
    NotSupported,
    IBatis,
    MyBatis,
}

/// The target database kind named on the command line.
#[derive(Clone, Copy, PartialEq, Eq, Structural, Debug)]
pub enum DbType {
    Unknown,
    Oracle,
    MySQL,
}

/// The database kind a (lowercased) name denotes.
pub open spec fn spec_db_type_of(name: Seq<char>) -> DbType {
    if name == "oracle"@ {
        DbType::Oracle
    } else if name == "mysql"@ {
        DbType::MySQL
    } else {
        DbType::Unknown
    }
}

impl DbType {
    /// Maps a lowercased database name to its kind.
    pub fn from(name: &str) -> (r: DbType)
        ensures
            r == spec_db_type_of(name@),
    {
        if str_eq_str(name, "oracle") {
            DbType::Oracle
        } else if str_eq_str(name, "mysql") {
            DbType::MySQL
        } else {
            DbType::Unknown
        }
    }
}

/// The dialect that a known database kind selects.
pub open spec fn spec_convert(db_type: DbType) -> DialectType {
    match db_type {
        DbType::Oracle => DialectType::Oracle,
        _ => DialectType::MySQL,
    }
}

/// Maps a known database kind to its dialect.
pub fn convert(db_type: DbType) -> (r: DialectType)
    requires
        db_type != DbType::Unknown,
    ensures
        r == spec_convert(db_type),
{
    match db_type {
        DbType::Oracle => DialectType::Oracle,
        DbType::MySQL => DialectType::MySQL,
        DbType::Unknown => DialectType::MySQL,  // ruled out by the precondition
    }
}

/// View of an argument set.
pub ghost struct ArgsV {
    pub mode: XBatisMode,
    pub db_type: DbType,
    pub src_dir: Seq<char>,
    pub output_dir: Seq<char>,
    pub gen_explain: bool,
    pub replace_num: i16,
    pub sql_limit: i16,
    pub fast_fail: bool,
    pub show_version: bool,
}

/// The validated run configuration.
#[derive(Clone, Debug)]
pub struct Args {
    pub mode: XBatisMode,
    pub db_type: DbType,
    pub src_dir: String,
    pub output_dir: String,
    pub gen_explain: bool,
    pub replace_num: i16,
    pub sql_limit: i16,
    pub fast_fail: bool,
    pub show_version: bool,
}

impl View for Args {
    type V = ArgsV;

    open spec fn view(&self) -> ArgsV {
        ArgsV {
            mode: self.mode,
            db_type: self.db_type,
            src_dir: self.src_dir@,
            output_dir: self.output_dir@,
            gen_explain: self.gen_explain,
            replace_num: self.replace_num,
            sql_limit: self.sql_limit,
            fast_fail: self.fast_fail,
            show_version: self.show_version,
        }
    }
}

/// The argument set that refuses the run and asks for the usage text.
pub open spec fn spec_args_fail() -> ArgsV {
    ArgsV {
        mode: XBatisMode::NotSupported,
        db_type: DbType::Unknown,
        src_dir: Seq::<char>::empty(),
        output_dir: Seq::<char>::empty(),
        gen_explain: false,
        replace_num: 0,
        sql_limit: 0,
        fast_fail: true,
        show_version: false,
    }
}

/// The argument set that asks for the version text.
pub open spec fn spec_args_help() -> ArgsV {
    ArgsV { fast_fail: false, show_version: true, ..spec_args_fail() }
}

impl Args {
    /// A validated, accepted argument set.
    pub fn new(
        mode: XBatisMode,
        db_type: DbType,
        src_dir: &str,
        output_dir: &str,
        gen_explain: bool,
        replace_num: i16,
        sql_limit: i16,
    ) -> (r: Args)
        ensures
            r@ == (ArgsV {
                mode,
                db_type,
                src_dir: src_dir@,
                output_dir: output_dir@,
                gen_explain,
                replace_num,
                sql_limit,
                fast_fail: false,
                show_version: false,
            }),
    {
        Args {
            mode,
            db_type,
            src_dir: src_dir.to_owned(),
            output_dir: output_dir.to_owned(),
            gen_explain,
            replace_num,
            sql_limit,
            fast_fail: false,
            show_version: false,
        }
    }

    /// The refusing argument set.
    pub fn fail() -> (r: Args)
        ensures
            r@ == spec_args_fail(),
    {
        Args {
            mode: XBatisMode::NotSupported,
            db_type: DbType::Unknown,
            src_dir: String::new(),
            output_dir: String::new(),
            gen_explain: false,
            replace_num: 0,
            sql_limit: 0,
            fast_fail: true,
            show_version: false,
        }
    }

    /// The version-asking argument set.
    pub fn help() -> (r: Args)
        ensures
            r@ == spec_args_help(),
    {
        Args {
            mode: XBatisMode::NotSupported,
            db_type: DbType::Unknown,
            src_dir: String::new(),
            output_dir: String::new(),
            gen_explain: false,
            replace_num: 0,
            sql_limit: 0,
            fast_fail: false,
            show_version: true,
        }
    }
}

/// What a full argument check decides, over plain values.
pub open spec fn spec_check_args(
    help: bool,
    version: bool,
    mode_ibatis: bool,
    mode_mybatis: bool,
    db_type_name: Option<Seq<char>>,
    src_dir: Option<Seq<char>>,
    output_dir: Option<Seq<char>>,
    gen_explain: bool,
    replace_num: i16,
    sql_limit: i16,
) -> ArgsV {
    if help {
        spec_args_fail()
    } else if version {
        spec_args_help()
    } else if mode_ibatis && mode_mybatis {
        spec_args_fail()
    } else if !mode_ibatis && !mode_mybatis {
        spec_args_fail()
    } else if db_type_name is None || src_dir is None || output_dir is None {
        spec_args_fail()
    } else if spec_db_type_of(spec_lower(db_type_name->Some_0)) == DbType::Unknown {
        spec_args_fail()
    } else {
        ArgsV {
            mode: if mode_ibatis {
                XBatisMode::IBatis
            } else {
                XBatisMode::MyBatis
            },
            db_type: spec_db_type_of(spec_lower(db_type_name->Some_0)),
            src_dir: src_dir->Some_0,
            output_dir: output_dir->Some_0,
            gen_explain,
            replace_num,
            sql_limit,
            fast_fail: false,
            show_version: false,
        }
    }
}

/// The argument check proper: mode flags are mutually exclusive and
/// one is required, database kind (case-insensitive), source and
/// output directory are required; everything else defaults. Every
/// refused combination yields the refusing argument set.
pub fn actual_check_args(
    help: bool,
    version: bool,
    mode_ibatis: bool,
    mode_mybatis: bool,
    db_type_name: Option<String>,
    src_dir: Option<String>,
    output_dir: Option<String>,
    gen_explain: bool,
    replace_num: i16,
    sql_limit: i16,
) -> (r: Args)
    ensures
        r@ == spec_check_args(
            help,
            version,
            mode_ibatis,
            mode_mybatis,
            match db_type_name {
                Some(s) => Some(s@),
                None => None,
            },
            match src_dir {
                Some(s) => Some(s@),
                None => None,
            },
            match output_dir {
                Some(s) => Some(s@),
                None => None,
            },
            gen_explain,
            replace_num,
            sql_limit,
        ),
{
    if help {
        Args::fail()
    } else if version {
        Args::help()
    } else if mode_ibatis && mode_mybatis {
        Args::fail()
    } else if !mode_ibatis && !mode_mybatis {
        Args::fail()
    } else if db_type_name.is_none() || src_dir.is_none() || output_dir.is_none() {
        Args::fail()
    } else {
        let name = db_type_name.unwrap();
        let lowered = to_ascii_lower(name.as_str());
        let db_type = DbType::from(lowered.as_str());
        if db_type == DbType::Unknown {
            Args::fail()
        } else {
            let mode = if mode_ibatis {
                XBatisMode::IBatis
            } else {
                XBatisMode::MyBatis
            };
            let s = src_dir.unwrap();
            let o = output_dir.unwrap();
            Args::new(mode, db_type, s.as_str(), o.as_str(), gen_explain, replace_num, sql_limit)
        }
    }
}

} // verus!
