//! The `<command>` entity parser.

use vstd::prelude::*;
use crate::errors::{ParseError, ParseErrorV, ParseResult};
use crate::events::{Cursor, Attribute, EventV, ScanEnd, scan_scope, lemma_scan_bounds, clone_string};
use crate::scope::XmlContents;
use crate::find::{FindOutcome, find_in_scope, find_child_tag};
use crate::strutil::{str_eq, csv_of, strings_view, split_csv};
use crate::xast::{Node, NodeV, Content, ContentV, contents_view, content_view,
    lemma_contents_view_len, lemma_contents_view_index, attr_of, attr_or_child_of, child_lookup,
    node_contents, element_at, csv_attribute};
use crate::fields::{TyperefInfo, TyperefInfoV, ParameterInfo, ParameterInfoV, typeref_of, param_of};

verus! {

/// Where a command may be recorded relative to a render pass.
#[derive(Debug, Clone, Copy, PartialEq, Eq, Structural)]
pub enum CommandRenderPassInfo {
    Inside,
    Outside,
    Both,
}

/// The command buffer levels a command may be recorded at.
#[derive(Debug, Clone, Copy, PartialEq, Eq, Structural)]
pub enum CommandBufferLevel {
    Primary,
    Secondary,
}

/// The pipeline a command binds to.
#[derive(Debug, Clone, Copy, PartialEq, Eq, Structural)]
pub enum CommandPipelineType {
    Compute,
    Transfer,
    Graphics,
}

/// One command of the registry.
#[derive(Debug)]
pub struct CommandInfo {
    pub name: String,
    pub queues: Vec<String>,
    pub successcodes: Vec<String>,
    pub errorcodes: Vec<String>,
    pub renderpass: Option<CommandRenderPassInfo>,
    /// Kept deduplicated in declaration order: `Primary` before `Secondary`.
    pub cmdbufferlevel: Option<Vec<CommandBufferLevel>>,
    pub pipeline: Option<CommandPipelineType>,
    pub return_type: TyperefInfo,
    pub params: Vec<ParameterInfo>,
}

/// Spec-level value of a [`CommandInfo`].
pub struct CommandInfoV {
    pub name: Seq<char>,
    pub queues: Seq<Seq<char>>,
    pub successcodes: Seq<Seq<char>>,
    pub errorcodes: Seq<Seq<char>>,
    pub renderpass: Option<CommandRenderPassInfo>,
    pub cmdbufferlevel: Option<Seq<CommandBufferLevel>>,
    pub pipeline: Option<CommandPipelineType>,
    pub return_type: TyperefInfoV,
    pub params: Seq<ParameterInfoV>,
}

/// View of a parameter list.
pub open spec fn params_view(v: Seq<ParameterInfo>) -> Seq<ParameterInfoV> {
    v.map_values(|p: ParameterInfo| p@)
}

impl View for CommandInfo {
    type V = CommandInfoV;

    open spec fn view(&self) -> CommandInfoV {
        CommandInfoV {
            name: self.name@,
            queues: strings_view(self.queues@),
            successcodes: strings_view(self.successcodes@),
            errorcodes: strings_view(self.errorcodes@),
            renderpass: self.renderpass,
            cmdbufferlevel: match self.cmdbufferlevel {
                Some(v) => Some(v@),
                None => None,
            },
            pipeline: self.pipeline,
            return_type: self.return_type@,
            params: params_view(self.params@),
        }
    }
}

/// A comma-separated attribute's fields, or the empty list when absent.
pub open spec fn csv_attr_of(n: NodeV, name: Seq<char>) -> Seq<Seq<char>> {
    match attr_of(n, name) {
        Some(v) => csv_of(v),
        None => Seq::empty(),
    }
}

/// The command's parameters: its `param` children in order; the first
/// ill-formed parameter aborts.
pub open spec fn params_of(cs: Seq<ContentV>) -> Result<Seq<ParameterInfoV>, ParseErrorV>
    decreases cs.len(),
{
    if cs.len() == 0 {
        Ok(Seq::empty())
    } else {
        match cs[0] {
            ContentV::Child(n) => if n.name == "param"@ {
                match param_of(n) {
                    Err(e) => Err(e),
                    Ok(p) => match params_of(cs.skip(1)) {
                        Err(e) => Err(e),
                        Ok(ps) => Ok(seq![p] + ps),
                    },
                }
            } else {
                params_of(cs.skip(1))
            },
            _ => params_of(cs.skip(1)),
        }
    }
}

/// Parses the `param` children of a command node, in order.
fn parse_params(node: &Node) -> (r: ParseResult<Vec<ParameterInfo>>)
    ensures
        match params_of(node@.contents) {
            Ok(ps) => r matches Result::Ok(v) && params_view(v@) == ps,
            Err(e) => r matches Result::Err(err) && err@ == e,
        },
{
    let ghost full = contents_view(node.contents@);
    let mut acc: Vec<ParameterInfo> = Vec::new();
    let mut i: usize = 0;
    proof {
        assert(full.skip(0int) =~= full);
        assert(params_view(acc@) =~= Seq::<ParameterInfoV>::empty());
    }
    while i < node.contents.len()
        invariant
            i <= node.contents.len(),
            full == contents_view(node.contents@),
            match params_of(full.skip(i as int)) {
                Ok(ps) => params_of(full) == Ok::<_, ParseErrorV>(params_view(acc@) + ps),
                Err(e) => params_of(full) == Err::<Seq<ParameterInfoV>, _>(e),
            },
        decreases node.contents.len() - i,
    {
        proof {
            lemma_contents_view_len(node.contents@);
            lemma_contents_view_index(node.contents@, i as int);
            assert(full.skip(i as int)[0] == content_view(node.contents@[i as int]));
            assert(full.skip(i as int).skip(1) =~= full.skip(i as int + 1));
        }
        match &node.contents[i] {
            Content::Child(n) => {
                if str_eq(n.name.as_str(), "param") {
                    match ParameterInfo::parse_node(n) {
                        Err(e) => {
                            return Err(e);
                        },
                        Ok(p) => {
                            proof {
                                assert(params_view(acc@.push(p)) =~= params_view(acc@).push(p@));
                                if params_of(full.skip(i as int + 1)) is Ok {
                                    let ps = params_of(full.skip(i as int + 1))->Ok_0;
                                    assert(params_view(acc@).push(p@) + ps =~=
                                        params_view(acc@) + (seq![p@] + ps));
                                }
                            }
                            acc.push(p);
                        },
                    }
                }
            },
            _ => {},
        }
        i += 1;
    }
    proof {
        lemma_contents_view_len(node.contents@);
        assert(full.skip(node.contents@.len() as int).len() == 0);
        assert(params_view(acc@) =~= params_view(acc@) + Seq::<ParameterInfoV>::empty());
    }
    Ok(acc)
}

/// The `renderpass` classification, where declared.
pub open spec fn renderpass_of(n: NodeV) -> Result<Option<CommandRenderPassInfo>, ParseErrorV> {
    match attr_of(n, "renderpass"@) {
        None => Ok(None),
        Some(v) => if v == "outside"@ {
            Ok(Some(CommandRenderPassInfo::Outside))
        } else if v == "inside"@ {
            Ok(Some(CommandRenderPassInfo::Inside))
        } else if v == "both"@ {
            Ok(Some(CommandRenderPassInfo::Both))
        } else {
            Err(ParseErrorV::UnrecognizedCategory(v))
        },
    }
}

/// The `pipeline` classification, where declared.
pub open spec fn pipeline_of(n: NodeV) -> Result<Option<CommandPipelineType>, ParseErrorV> {
    match attr_of(n, "pipeline"@) {
        None => Ok(None),
        Some(v) => if v == "compute"@ {
            Ok(Some(CommandPipelineType::Compute))
        } else if v == "transfer"@ {
            Ok(Some(CommandPipelineType::Transfer))
        } else if v == "graphics"@ {
            Ok(Some(CommandPipelineType::Graphics))
        } else {
            Err(ParseErrorV::UnrecognizedCategory(v))
        },
    }
}

/// The first field of a `cmdbufferlevel` attribute that names no level.
pub open spec fn first_bad_level(fields: Seq<Seq<char>>) -> Option<Seq<char>>
    decreases fields.len(),
{
    if fields.len() == 0 {
        None
    } else if fields[0] != "primary"@ && fields[0] != "secondary"@ {
        Some(fields[0])
    } else {
        first_bad_level(fields.skip(1))
    }
}

/// The level set a `cmdbufferlevel` attribute denotes, deduplicated, in
/// declaration order.
pub open spec fn levels_of(fields: Seq<Seq<char>>) -> Seq<CommandBufferLevel> {
    (if fields.contains("primary"@) {
        seq![CommandBufferLevel::Primary]
    } else {
        Seq::empty()
    }) + (if fields.contains("secondary"@) {
        seq![CommandBufferLevel::Secondary]
    } else {
        Seq::empty()
    })
}

/// The `cmdbufferlevel` classification, where declared.
pub open spec fn cmdbufferlevel_of(n: NodeV) -> Result<
    Option<Seq<CommandBufferLevel>>,
    ParseErrorV,
> {
    match attr_of(n, "cmdbufferlevel"@) {
        None => Ok(None),
        Some(v) => match first_bad_level(csv_of(v)) {
            Some(bad) => Err(ParseErrorV::UnrecognizedCategory(bad)),
            None => Ok(Some(levels_of(csv_of(v)))),
        },
    }
}

fn parse_cmdbufferlevel(node: &Node) -> (r: ParseResult<Option<Vec<CommandBufferLevel>>>)
    ensures
        match cmdbufferlevel_of(node@) {
            Ok(Some(ls)) => r matches Result::Ok(Option::Some(v)) && v@ == ls,
            Ok(None) => r matches Result::Ok(o) && o is None,
            Err(e) => r matches Result::Err(err) && err@ == e,
        },
{
    let raw = match node.get_attribute("cmdbufferlevel") {
        None => {
            return Ok(None);
        },
        Some(v) => v,
    };
    let fields = split_csv(raw.as_str());
    let ghost fs = strings_view(fields@);
    let mut has_primary: bool = false;
    let mut has_secondary: bool = false;
    let mut i: usize = 0;
    proof {
        assert("primary"@ != "secondary"@) by {
            reveal_strlit("primary");
            reveal_strlit("secondary");
            assert("primary"@.len() == 7);
            assert("secondary"@.len() == 9);
        }
        assert(fs.skip(0int) =~= fs);
    }
    while i < fields.len()
        invariant
            i <= fields.len(),
            fs == strings_view(fields@),
            attr_of(node@, "cmdbufferlevel"@) == Some(raw@),
            fs == csv_of(raw@),
            first_bad_level(fs) == first_bad_level(fs.skip(i as int)),
            has_primary == fs.subrange(0, i as int).contains("primary"@),
            has_secondary == fs.subrange(0, i as int).contains("secondary"@),
        decreases fields.len() - i,
    {
        proof {
            assert(fs.skip(i as int)[0] == fields@[i as int]@);
            assert(fs.skip(i as int).skip(1) =~= fs.skip(i as int + 1));
        }
        let f = fields[i].as_str();
        if str_eq(f, "primary") {
            has_primary = true;
            proof {
                assert(fs.subrange(0, i as int + 1)[i as int] == "primary"@);
            }
        } else if str_eq(f, "secondary") {
            has_secondary = true;
            proof {
                assert(fs.subrange(0, i as int + 1)[i as int] == "secondary"@);
            }
        } else {
            proof {
                assert(first_bad_level(fs.skip(i as int)) == Some(fields@[i as int]@));
            }
            return Err(ParseError::UnrecognizedCategory(clone_string(&fields[i])));
        }
        proof {
            assert("primary"@ != "secondary"@) by {
                reveal_strlit("primary");
                reveal_strlit("secondary");
                assert("primary"@.len() == 7);
                assert("secondary"@.len() == 9);
            }
            let pre = fs.subrange(0, i as int);
            let ext = fs.subrange(0, i as int + 1);
            assert forall|x: Seq<char>| pre.contains(x) implies ext.contains(x) by {
                let j = choose|j: int| 0 <= j < pre.len() && pre[j] == x;
                assert(ext[j] == x);
            }
            if !has_primary {
                assert(!ext.contains("primary"@)) by {
                    if ext.contains("primary"@) {
                        let j = choose|j: int| 0 <= j < ext.len() && ext[j] == "primary"@;
                        if j < i as int {
                            assert(pre[j] == "primary"@);
                        }
                    }
                }
            }
            if !has_secondary {
                assert(!ext.contains("secondary"@)) by {
                    if ext.contains("secondary"@) {
                        let j = choose|j: int| 0 <= j < ext.len() && ext[j] == "secondary"@;
                        if j < i as int {
                            assert(pre[j] == "secondary"@);
                        }
                    }
                }
            }
        }
        i += 1;
    }
    proof {
        assert(fs.subrange(0, fs.len() as int) =~= fs);
        assert(fs.skip(fs.len() as int).len() == 0);
    }
    let mut out: Vec<CommandBufferLevel> = Vec::new();
    if has_primary {
        out.push(CommandBufferLevel::Primary);
    }
    if has_secondary {
        out.push(CommandBufferLevel::Secondary);
    }
    proof {
        assert(out@ =~= levels_of(fs));
    }
    Ok(Some(out))
}

/// The command a `<command>` node denotes: its `proto` child names it and
/// carries its return type; its `param` children are its parameters; the
/// queue/code lists and the renderpass, buffer-level and pipeline
/// classifications come from attributes.
pub open spec fn command_of(n: NodeV) -> Result<CommandInfoV, ParseErrorV> {
    match child_lookup(n.contents, "proto"@) {
        None => Err(ParseErrorV::MissingRequiredAttributeOrChild {
            element: n.name,
            field: "proto"@,
        }),
        Some(proto) => match typeref_of(proto) {
            Err(e) => Err(e),
            Ok(return_type) => match attr_or_child_of(proto, "name"@) {
                None => Err(ParseErrorV::MissingRequiredAttributeOrChild {
                    element: proto.name,
                    field: "name"@,
                }),
                Some(name) => match params_of(n.contents) {
                    Err(e) => Err(e),
                    Ok(params) => match renderpass_of(n) {
                        Err(e) => Err(e),
                        Ok(renderpass) => match cmdbufferlevel_of(n) {
                            Err(e) => Err(e),
                            Ok(cmdbufferlevel) => match pipeline_of(n) {
                                Err(e) => Err(e),
                                Ok(pipeline) => Ok(CommandInfoV {
                                    name,
                                    queues: csv_attr_of(n, "queues"@),
                                    successcodes: csv_attr_of(n, "successcodes"@),
                                    errorcodes: csv_attr_of(n, "errorcodes"@),
                                    renderpass,
                                    cmdbufferlevel,
                                    pipeline,
                                    return_type,
                                    params,
                                }),
                            },
                        },
                    },
                },
            },
        },
    }
}

impl CommandInfo {
    /// Interprets an already-built `<command>` tree.
    pub fn from_node(node: &Node) -> (r: ParseResult<CommandInfo>)
        ensures
            match command_of(node@) {
                Ok(ci) => r matches Result::Ok(v) && v@ == ci,
                Err(e) => r matches Result::Err(err) && err@ == e,
            },
    {
        let proto = match node.get_child("proto") {
            None => {
                return Err(ParseError::MissingRequiredAttributeOrChild {
                    element: clone_string(&node.name),
                    field: "proto".to_owned(),
                });
            },
            Some(p) => p,
        };
        let return_type = match TyperefInfo::parse_node(proto) {
            Err(e) => {
                return Err(e);
            },
            Ok(t) => t,
        };
        let name = match proto.get_attribute_or_child("name") {
            None => {
                return Err(ParseError::MissingRequiredAttributeOrChild {
                    element: clone_string(&proto.name),
                    field: "name".to_owned(),
                });
            },
            Some(n) => n,
        };
        let params = match parse_params(node) {
            Err(e) => {
                return Err(e);
            },
            Ok(ps) => ps,
        };
        let renderpass = match node.get_attribute("renderpass") {
            None => None,
            Some(v) => {
                if str_eq(v.as_str(), "outside") {
                    Some(CommandRenderPassInfo::Outside)
                } else if str_eq(v.as_str(), "inside") {
                    Some(CommandRenderPassInfo::Inside)
                } else if str_eq(v.as_str(), "both") {
                    Some(CommandRenderPassInfo::Both)
                } else {
                    return Err(ParseError::UnrecognizedCategory(clone_string(v)));
                }
            },
        };
        let cmdbufferlevel = match parse_cmdbufferlevel(node) {
            Err(e) => {
                return Err(e);
            },
            Ok(l) => l,
        };
        let pipeline = match node.get_attribute("pipeline") {
            None => None,
            Some(v) => {
                if str_eq(v.as_str(), "compute") {
                    Some(CommandPipelineType::Compute)
                } else if str_eq(v.as_str(), "transfer") {
                    Some(CommandPipelineType::Transfer)
                } else if str_eq(v.as_str(), "graphics") {
                    Some(CommandPipelineType::Graphics)
                } else {
                    return Err(ParseError::UnrecognizedCategory(clone_string(v)));
                }
            },
        };
        Ok(CommandInfo {
            name,
            queues: csv_attribute(node, "queues"),
            successcodes: csv_attribute(node, "successcodes"),
            errorcodes: csv_attribute(node, "errorcodes"),
            renderpass,
            cmdbufferlevel,
            pipeline,
            return_type,
            params,
        })
    }

    /// Parses the `<command>` element whose start tag the cursor has just
    /// passed.
    pub fn parse(c: &mut Cursor, name: String, attributes: Vec<Attribute>) -> (r:
        ParseResult<CommandInfo>)
        requires
            old(c).wf(),
        ensures
            final(c).wf(),
            final(c).stream() == old(c).stream(),
            ({
                let es = old(c).stream();
                let p = old(c).at();
                match scan_scope(es, p, 1) {
                    ScanEnd::Closed(q) => {
                        &&& match command_of(NodeV {
                            name: name@,
                            attributes: crate::events::attrs_view(attributes@),
                            contents: node_contents(es, p),
                        }) {
                            Ok(ci) => r matches Result::Ok(v) && v@ == ci,
                            Err(e) => r matches Result::Err(err) && err@ == e,
                        }
                        &&& final(c).at() == q + 1
                    },
                    ScanEnd::Failed(q) => {
                        &&& r matches Result::Err(err) && err@ matches
                            ParseErrorV::MalformedSource(m) && EventV::Fault(m) == es[q]
                        &&& final(c).at() == q + 1
                    },
                    ScanEnd::Truncated => {
                        &&& r matches Result::Err(err) && err is UnexpectedEOF
                        &&& final(c).at() == es.len()
                    },
                }
            }),
    {
        match Node::parse(c, name, attributes) {
            Err(e) => Err(e),
            Ok(node) => CommandInfo::from_node(&node),
        }
    }

    /// Produces the next `<command>` entity directly inside the current
    /// scope, or `None` when the scope closes or the stream ends.
    pub fn parse_next_command(s: &mut XmlContents, c: &mut Cursor) -> (r: Option<
        ParseResult<CommandInfo>,
    >)
        requires
            old(c).wf(),
            old(s).depth() >= 1,
            old(s).depth() <= old(c).at() + 1,
        ensures
            final(c).wf(),
            final(c).stream() == old(c).stream(),
            final(s).depth() <= final(c).at() + 1,
            ({
                let es = old(c).stream();
                let p = old(c).at();
                let d = old(s).depth();
                match find_in_scope(es, p, d, "command"@) {
                    FindOutcome::Found(q) => match scan_scope(es, q + 1, 1) {
                        ScanEnd::Closed(cc) => {
                            &&& match command_of(element_at(es, q)) {
                                Ok(ci) => r matches Option::Some(Result::Ok(v)) && v@ == ci,
                                Err(e) => r matches Option::Some(Result::Err(err)) && err@ == e,
                            }
                            &&& final(c).at() == cc + 1
                            &&& final(s).depth() == 1
                        },
                        ScanEnd::Failed(f) => {
                            &&& r matches Option::Some(Result::Err(err)) && err@ matches
                                ParseErrorV::MalformedSource(m) && EventV::Fault(m) == es[f]
                            &&& final(c).at() == f + 1
                        },
                        ScanEnd::Truncated => {
                            &&& r matches Option::Some(Result::Err(err)) && err is UnexpectedEOF
                            &&& final(c).at() == es.len()
                        },
                    },
                    FindOutcome::Ended(q) => {
                        &&& r is None
                        &&& final(c).at() == q + 1
                        &&& final(s).depth() == 0
                    },
                    FindOutcome::Failed(q) => {
                        &&& r matches Option::Some(Result::Err(err)) && err@ matches
                            ParseErrorV::MalformedSource(m) && EventV::Fault(m) == es[q]
                        &&& final(c).at() == q + 1
                    },
                    FindOutcome::Truncated => {
                        &&& r is None
                        &&& final(c).at() == es.len()
                    },
                }
            }),
    {
        let ghost es = c.stream();
        match find_child_tag(s, c, "command") {
            Err(e) => Some(Err(e)),
            Ok(None) => None,
            Ok(Some((name, attributes))) => {
                proof {
                    c.lemma_bounds();
                    lemma_scan_bounds(es, c.at(), 1);
                }
                let t = CommandInfo::parse(c, name, attributes);
                s.child_closed();
                Some(t)
            },
        }
    }
}

} // verus!
