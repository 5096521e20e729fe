//! Helper tokens: argument grouping punctuation and the type annotation
//! parsed from a `[...]` region.

use vstd::prelude::*;

use crate::compiler::err::Error;
use crate::compiler::inst::Inst;
use crate::strings::{spec_split, spec_trim, split_str, str_views, trim_str};
use crate::tables::typss;
use crate::type_checker::{spec_typ_union, Typ};

verus! {

#[derive(Debug)]
pub enum Token {
    ArgOpen,
    ArgClose,
    ArgSep,
    TypeAnnot(Vec<Vec<Typ>>, Vec<Vec<Typ>>, bool),
}

/// Resolving one side of an annotation: the `,`-separated slots in order,
/// blank slots skipped, each slot a `|`-separated union; the first unknown
/// type name decides the error.
pub open spec fn annot_list(segs: Seq<Seq<char>>) -> Result<Seq<Seq<Typ>>, Seq<char>>
    decreases segs.len(),
{
    if segs.len() == 0 {
        Ok(Seq::empty())
    } else if spec_trim(segs.first()).len() == 0 {
        annot_list(segs.drop_first())
    } else {
        match spec_typ_union(spec_trim(segs.first())) {
            Err(e) => Err(e),
            Ok(types) => match annot_list(segs.drop_first()) {
                Ok(rest) => Ok(seq![types] + rest),
                Err(e) => Err(e),
            },
        }
    }
}

/// What parsing one side of an annotation yields.
pub open spec fn spec_parse_annot(value: Seq<char>) -> Result<Seq<Seq<Typ>>, Seq<char>> {
    annot_list(spec_split(value, ","@))
}

/// What parsing a whole `[...]` annotation yields: the text splits at the
/// first `->` into arguments and returns, at most once — with no `->` the
/// whole text is the returns and the function takes no arguments; a leading
/// `!` on the returns suppresses the exit check; a returns-side error wins
/// over an arguments-side one.
pub open spec fn spec_new_type_annot(value: Seq<char>) -> Result<
    (Seq<Seq<Typ>>, Seq<Seq<Typ>>, bool),
    Seq<char>,
> {
    let t = spec_trim(value);
    let args_src = (match crate::strings::find_sub(t, "->"@) {
        Some(i) => t.take(i),
        None => Seq::<char>::empty(),
    });
    let ret_src = (match crate::strings::find_sub(t, "->"@) {
        Some(i) => t.skip(i + "->"@.len()),
        None => t,
    });
    let ignore = spec_trim(ret_src).len() > 0 && spec_trim(ret_src).first() == '!';
    let ret_used = if ignore {
        spec_trim(ret_src).drop_first()
    } else {
        ret_src
    };
    match (spec_parse_annot(args_src), spec_parse_annot(ret_used)) {
        (Ok(args), Ok(ret)) => Ok((args, ret, ignore)),
        (_, Err(e)) => Err(e),
        (Err(e), _) => Err(e),
    }
}

impl Token {
    /// Helper tokens only shape parsing; they emit nothing.
    pub fn compile(&self) -> (r: Result<Vec<Inst>, Error>)
        ensures
            r matches Ok(v) && v@ == Seq::<Inst>::empty(),
    {
        let out: Vec<Inst> = Vec::new();
        Ok(out)
    }

    /// Parses the text between `[` and `]` into a `TypeAnnot` token.
    pub fn new_type_annot(value: &str) -> (r: Result<Token, String>)
        ensures
            (match r {
                Ok(t) => spec_new_type_annot(value@) matches Ok(sv) && t matches Token::TypeAnnot(
                    args,
                    ret,
                    ignore,
                ) && typss(args@) == sv.0 && typss(ret@) == sv.1 && ignore == sv.2,
                Err(m) => spec_new_type_annot(value@) matches Err(se) && m@ == se,
            }),
    {
        proof {
            reveal_strlit("->");
        }
        let trimmed = trim_str(value);
        let tlen = trimmed.unicode_len();
        let mut args_type = String::new();
        let return_src: String = match crate::strings::find_first(trimmed, "->") {
            Some(i) => {
                args_type = String::from_str(trimmed.substring_char(0, i));
                String::from_str(trimmed.substring_char(i + 2, tlen))
            },
            None => String::from_str(trimmed),
        };
        proof {
            let t = spec_trim(value@);
            match crate::strings::find_sub(t, "->"@) {
                Some(i) => {
                    assert(args_type@ =~= t.take(i));
                    assert(return_src@ =~= t.skip(i + "->"@.len()));
                },
                None => {
                    assert(args_type@ =~= Seq::<char>::empty());
                },
            }
        }
        let ret_trimmed = trim_str(return_src.as_str());
        let ret_len = ret_trimmed.unicode_len();
        let mut ignore_return = false;
        let ret_used: String = if ret_len > 0 && ret_trimmed.get_char(0) == '!' {
            ignore_return = true;
            let cut = ret_trimmed.substring_char(1, ret_len);
            proof {
                assert(cut@ =~= spec_trim(return_src@).drop_first());
            }
            String::from_str(cut)
        } else {
            return_src.clone()
        };
        let args = Self::parse_annot(args_type.as_str());
        let ret = Self::parse_annot(ret_used.as_str());
        match (args, ret) {
            (Ok(args), Ok(ret)) => Ok(Token::TypeAnnot(args, ret, ignore_return)),
            (_, Err(e)) => Err(e),
            (Err(e), _) => Err(e),
        }
    }

    /// Parses one side of an annotation into its list of slot unions.
    pub fn parse_annot(value: &str) -> (r: Result<Vec<Vec<Typ>>, String>)
        ensures
            (match r {
                Ok(v) => spec_parse_annot(value@) matches Ok(sv) && typss(v@) == sv,
                Err(m) => spec_parse_annot(value@) matches Err(se) && m@ == se,
            }),
    {
        proof {
            reveal_strlit(",");
        }
        let segs = split_str(value, ",");
        let ghost gsegs = spec_split(value@, ","@);
        let mut output: Vec<Vec<Typ>> = Vec::new();
        let mut i: usize = 0;
        proof {
            assert(gsegs.skip(0) =~= gsegs);
        }
        while i < segs.len()
            invariant
                0 <= i <= segs.len(),
                gsegs == spec_split(value@, ","@),
                str_views(segs@) == gsegs,
                forall|e: Seq<char>|
                    annot_list(gsegs.skip(i as int)) == Err::<Seq<Seq<Typ>>, Seq<char>>(e)
                        ==> annot_list(gsegs) == Err::<Seq<Seq<Typ>>, Seq<char>>(e),
                forall|rest: Seq<Seq<Typ>>|
                    annot_list(gsegs.skip(i as int)) == Ok::<Seq<Seq<Typ>>, Seq<char>>(rest)
                        ==> annot_list(gsegs) == Ok::<Seq<Seq<Typ>>, Seq<char>>(
                        typss(output@) + rest,
                    ),
            decreases segs.len() - i,
        {
            let ghost tail = gsegs.skip(i as int);
            proof {
                assert(tail.first() == segs@[i as int]@);
                assert(tail.drop_first() =~= gsegs.skip(i + 1));
            }
            let seg = &segs[i];
            let t = trim_str(seg.as_str());
            if t.unicode_len() > 0 {
                match Typ::try_from(t) {
                    Ok(val) => {
                        let ghost pre = output@;
                        output.push(val);
                        proof {
                            assert(typss(output@) =~= typss(pre).push(val@));
                            assert forall|rest: Seq<Seq<Typ>>|
                                annot_list(gsegs.skip(i + 1)) == Ok::<Seq<Seq<Typ>>, Seq<char>>(
                                    rest,
                                ) implies annot_list(gsegs) == Ok::<Seq<Seq<Typ>>, Seq<char>>(
                                typss(output@) + rest,
                            ) by {
                                assert(annot_list(tail) == Ok::<Seq<Seq<Typ>>, Seq<char>>(
                                    seq![val@] + rest,
                                ));
                                assert(typss(pre) + (seq![val@] + rest) =~= typss(output@) + rest);
                            }
                        }
                    },
                    Err(e) => {
                        proof {
                            assert(annot_list(tail) == Err::<Seq<Seq<Typ>>, Seq<char>>(e@));
                        }
                        return Err(e);
                    },
                }
            }
            i += 1;
        }
        proof {
            assert(gsegs.skip(segs@.len() as int) =~= Seq::<Seq<char>>::empty());
            assert(annot_list(gsegs) == Ok::<Seq<Seq<Typ>>, Seq<char>>(
                typss(output@) + Seq::<Seq<Typ>>::empty(),
            ));
            assert(typss(output@) + Seq::<Seq<Typ>>::empty() =~= typss(output@));
        }
        Ok(output)
    }
}

} // verus!
