use std::sync::Arc;

use emmylua_code_analysis::db::{
    is_sub_type_of, DbIndex, IndexTables, LuaDeclKind, LuaMemberIndexItem, LuaMemberOwner,
    LuaOwnerMembers, LuaTypeDecl, TypeOps,
};
use emmylua_code_analysis::diagnostic::args::{check_param_type_mismatch, CallArguments};
use emmylua_code_analysis::generic::substitutor::{instantiate_type_generic, TypeSubstitutor};
use emmylua_code_analysis::member::collect::{collect_members, MemberOrigin};
use emmylua_code_analysis::type_check::assignable::{
    check_assignable, is_assignable, is_surely_assignable, probe_assignable, AssignabilityResult,
};
use emmylua_code_analysis::type_check::error_chain::{ChainMessage, ErrorChain, OverflowKind};
use emmylua_code_analysis::type_check::relation::{
    EvidenceMode, IntersectionState, Relater, RelationFailure, RelationResult, SemanticLocalCache,
};
use emmylua_code_analysis::types::{
    AsyncState, FileId, GenericParam, GenericTpl, GenericTplId, InFiled, LuaAliasCallKind,
    LuaAliasCallType, LuaArrayLen, LuaArrayType, LuaConditionalType, LuaFloat, LuaFunctionType, LuaGenericType, LuaIndexAccessKey, LuaIntersectionType, LuaMemberKey,
    LuaMultiLineUnion, LuaObjectType, LuaSignatureId, LuaTupleStatus, LuaTupleType, LuaType,
    LuaTypeDeclId, LuaUnionMembers, LuaUnionType, TextRange, VariadicType,
};

struct Reader {
    chars: Vec<char>,
    at: usize,
    generics: Vec<String>,
}

impl Reader {
    fn new(text: &str, generics: &[String]) -> Reader {
        Reader { chars: text.chars().collect(), at: 0, generics: generics.to_vec() }
    }

    fn skip_space(&mut self) {
        while self.at < self.chars.len() && self.chars[self.at].is_whitespace() {
            self.at += 1;
        }
    }

    fn peek(&mut self) -> Option<char> {
        self.skip_space();
        self.chars.get(self.at).copied()
    }

    fn eat(&mut self, text: &str) -> bool {
        self.skip_space();
        let wanted: Vec<char> = text.chars().collect();
        if self.chars[self.at..].starts_with(&wanted) {
            self.at += wanted.len();
            true
        } else {
            false
        }
    }

    fn word(&mut self) -> String {
        self.skip_space();
        let mut word = String::new();
        while let Some(c) = self.chars.get(self.at) {
            if !c.is_alphanumeric() && *c != '_' {
                break;
            }
            word.push(*c);
            self.at += 1;
        }
        word
    }

    fn quoted(&mut self) -> Option<String> {
        let quote = self.peek()?;
        if quote != '\'' && quote != '"' {
            return None;
        }
        self.at += 1;
        let mut text = String::new();
        while self.chars[self.at] != quote {
            text.push(self.chars[self.at]);
            self.at += 1;
        }
        self.at += 1;
        Some(text)
    }

    fn rest(&mut self) -> String {
        self.skip_space();
        self.chars[self.at..].iter().collect()
    }

    fn typ(&mut self) -> LuaType {
        self.eat("|");
        let mut typ = self.intersection();
        while self.eat("|") {
            let next = self.intersection();
            typ = TypeOps::union(&typ, &next);
        }
        typ
    }

    fn intersection(&mut self) -> LuaType {
        let first = self.postfix();
        let mut types = vec![first];
        while self.eat("&") {
            types.push(self.postfix());
        }
        if types.len() == 1 {
            types.remove(0)
        } else {
            LuaType::Intersection(Arc::new(LuaIntersectionType::new(types)))
        }
    }

    fn postfix(&mut self) -> LuaType {
        let mut typ = self.primary();
        loop {
            if self.eat("[]") {
                typ = array_of(typ);
            } else if self.eat("?") {
                typ = TypeOps::union(&typ, &LuaType::Nil);
            } else if self.eat("...") {
                typ = LuaType::Variadic(Arc::new(VariadicType::Base(typ)));
            } else {
                return typ;
            }
        }
    }

    fn list(&mut self, close: &str) -> Vec<LuaType> {
        let mut types = Vec::new();
        while !self.eat(close) && self.peek().is_some() {
            types.push(self.typ());
            self.eat(",");
        }
        types
    }

    fn primary(&mut self) -> LuaType {
        if let Some(text) = self.quoted() {
            return LuaType::DocStringConst(text);
        }
        if self.eat("(") {
            let typ = self.typ();
            self.eat(")");
            return typ;
        }
        if self.eat("[") {
            let types = self.list("]");
            return LuaType::Tuple(Arc::new(LuaTupleType::new(types, LuaTupleStatus::DocResolve)));
        }
        if self.eat("{") {
            return self.object();
        }
        let word = self.word();
        assert!(!word.is_empty(), "a type is missing");
        if let Ok(number) = word.parse::<i64>() {
            return LuaType::DocIntegerConst(number);
        }
        if let Some(index) = self.generics.iter().position(|name| *name == word) {
            return type_template(index as u32, &word);
        }
        match word.as_str() {
            "nil" => LuaType::Nil,
            "any" => LuaType::Any,
            "unknown" => LuaType::Unknown,
            "never" => LuaType::Never,
            "string" => LuaType::String,
            "number" => LuaType::Number,
            "integer" => LuaType::Integer,
            "boolean" => LuaType::Boolean,
            "function" => LuaType::Function,
            "userdata" => LuaType::Userdata,
            "thread" => LuaType::Thread,
            "true" => LuaType::DocBooleanConst(true),
            "false" => LuaType::DocBooleanConst(false),
            "fun" => self.function(),
            "table" => {
                if self.eat("<") {
                    LuaType::TableGeneric(Arc::new(self.list(">")))
                } else {
                    LuaType::Table
                }
            }
            _ => {
                let id = LuaTypeDeclId::global(&word);
                if self.eat("<") {
                    LuaType::Generic(Arc::new(LuaGenericType::new(id, self.list(">"))))
                } else {
                    LuaType::Ref(id)
                }
            }
        }
    }

    fn object(&mut self) -> LuaType {
        let mut fields = Vec::new();
        while !self.eat("}") && self.peek().is_some() {
            let key = if self.eat("[") {
                let key = self.typ();
                self.eat("]");
                match key {
                    LuaType::DocIntegerConst(number) => LuaIndexAccessKey::Integer(number),
                    LuaType::DocStringConst(text) => LuaIndexAccessKey::String(text),
                    other => LuaIndexAccessKey::Type(other),
                }
            } else {
                LuaIndexAccessKey::String(self.word())
            };
            let optional = self.eat("?");
            assert!(self.eat(":"));
            let mut typ = self.typ();
            if optional {
                typ = TypeOps::union(&typ, &LuaType::Nil);
            }
            fields.push((key, typ));
            self.eat(",");
        }
        LuaType::Object(Arc::new(LuaObjectType::new(fields)))
    }

    fn function(&mut self) -> LuaType {
        assert!(self.eat("("));
        let mut params = Vec::new();
        let mut is_variadic = false;
        while !self.eat(")") {
            if self.eat("...") {
                is_variadic = true;
                params.push(("...".to_string(), None));
            } else {
                let name = self.word();
                let optional = self.eat("?");
                let mut typ = if self.eat(":") { Some(self.typ()) } else { None };
                if optional {
                    typ = typ.map(|typ| TypeOps::union(&typ, &LuaType::Nil));
                }
                params.push((name, typ));
            }
            self.eat(",");
        }
        let ret = if self.eat(":") { self.typ() } else { LuaType::Nil };
        LuaType::DocFunction(Arc::new(LuaFunctionType::new(
            AsyncState::Unspecified,
            false,
            is_variadic,
            params,
            ret,
            None,
        )))
    }
}

fn array_of(base: LuaType) -> LuaType {
    LuaType::Array(Arc::new(LuaArrayType::from_base_type(base)))
}

fn type_template(index: u32, name: &str) -> LuaType {
    LuaType::TplRef(Arc::new(GenericTpl::new(
        GenericTplId::Type(index),
        name.to_string(),
        None,
        None,
        false,
        None,
    )))
}

fn name(text: &str) -> LuaMemberKey {
    LuaMemberKey::Name(text.to_string())
}

/// The tables of an index that nobody else holds.
fn tables(db: &mut DbIndex) -> &mut IndexTables {
    Arc::get_mut(&mut db.tables).unwrap()
}

/// A workspace made of annotations.
struct Workspace {
    db: DbIndex,
    next_table: u32,
    generics: Vec<String>,
}

impl Workspace {
    fn new() -> Workspace {
        let mut db = DbIndex::new();
        tables(&mut db).strict_array_index = true;
        Workspace { db, next_table: 0, generics: Vec::new() }
    }

    fn decl(&mut self, id: &str, kind: LuaDeclKind) -> &mut LuaTypeDecl {
        let found = self.db.tables.type_decls.iter().position(|(known, _)| known.get_name() == id);
        let index = match found {
            Some(index) => index,
            None => {
                tables(&mut self.db).type_decls.push((
                    LuaTypeDeclId::global(id),
                    LuaTypeDecl {
                        kind,
                        generic_params: Vec::new(),
                        alias_ref: None,
                        super_types: Vec::new(),
                        enum_fields: None,
                        call_operators: Vec::new(),
                        constructor: None,
                        index_operators: Vec::new(),
                        is_enum_key: false,
                    },
                ));
                self.db.tables.type_decls.len() - 1
            }
        };
        &mut tables(&mut self.db).type_decls[index].1
    }

    fn add_member(&mut self, owner: LuaMemberOwner, key: LuaMemberKey, typ: Option<LuaType>) {
        let found = self.db.tables.owners.iter().position(|known| known.owner.same(&owner));
        let index = match found {
            Some(index) => index,
            None => {
                tables(&mut self.db).owners.push(LuaOwnerMembers { owner, items: Vec::new() });
                self.db.tables.owners.len() - 1
            }
        };
        let items = &mut tables(&mut self.db).owners[index].items;
        match items.iter().position(|item| item.key == key) {
            Some(place) => items[place].types.extend(typ),
            None => items.push(LuaMemberIndexItem { key, types: typ.into_iter().collect() }),
        }
    }

    fn def(&mut self, text: &str) {
        let mut lines = text.lines().map(|line| line.trim());
        let mut class = String::new();
        while let Some(line) = lines.next() {
            if let Some(rest) = line.strip_prefix("---@class ") {
                class = self.class(rest);
            } else if let Some(rest) = line.strip_prefix("---@field ") {
                self.field(&class, rest);
            } else if let Some(rest) = line.strip_prefix("---@operator call") {
                let mut reader = Reader::new(rest, &self.generics);
                assert!(reader.eat("("));
                let param = reader.typ();
                assert!(reader.eat("):"));
                let ret = reader.typ();
                let function = LuaFunctionType::new(
                    AsyncState::Unspecified,
                    false,
                    false,
                    vec![("arg0".to_string(), Some(param))],
                    ret,
                    None,
                );
                self.decl(&class, LuaDeclKind::Class).call_operators.push(Arc::new(function));
            } else if let Some(rest) = line.strip_prefix("---@alias ") {
                self.alias(rest);
            } else if let Some(rest) = line.strip_prefix("---@enum ") {
                let id = rest.to_string();
                let mut table = lines.next().unwrap_or("").to_string();
                while table.matches('{').count() != table.matches('}').count() {
                    table.push_str(lines.next().unwrap_or("}"));
                }
                let (_, table) = table.split_once('=').unwrap();
                self.declare_enum(&id, table);
            }
        }
        self.drop_cycles();
    }

    fn head(&mut self, reader: &mut Reader, kind: LuaDeclKind) -> String {
        let id = reader.word();
        let mut params = Vec::new();
        if reader.eat("<") {
            while !reader.eat(">") {
                let param = reader.word();
                let default = if reader.eat("=") { Some(reader.typ()) } else { None };
                reader.generics.push(param.clone());
                params.push(GenericParam::new(param, None, default, false, None));
                reader.eat(",");
            }
        }
        self.generics = reader.generics.clone();
        self.decl(&id, kind).generic_params = params;
        id
    }

    fn class(&mut self, rest: &str) -> String {
        let mut reader = Reader::new(rest, &[]);
        let is_partial = reader.eat("(partial)");
        let id = self.head(&mut reader, LuaDeclKind::Class);
        let mut supers = Vec::new();
        if reader.eat(":") {
            supers.push(reader.typ());
            while reader.eat(",") {
                supers.push(reader.typ());
            }
        }
        if !is_partial {
            self.decl(&id, LuaDeclKind::Class).super_types = supers;
        }
        id
    }

    fn field(&mut self, class: &str, rest: &str) {
        let mut reader = Reader::new(rest, &self.generics);
        let key = if reader.eat("[") {
            let key = reader.typ();
            assert!(reader.eat("]"));
            match key {
                LuaType::DocIntegerConst(number) => LuaMemberKey::Integer(number),
                LuaType::DocStringConst(text) => LuaMemberKey::Name(text),
                other => LuaMemberKey::TypeKey(other),
            }
        } else {
            LuaMemberKey::Name(reader.word())
        };
        let typ = reader.typ();
        self.add_member(LuaMemberOwner::Type(LuaTypeDeclId::global(class)), key, Some(typ));
    }

    fn alias(&mut self, rest: &str) {
        let mut reader = Reader::new(rest, &[]);
        let id = self.head(&mut reader, LuaDeclKind::Alias);
        let origin = reader.typ();
        self.decl(&id, LuaDeclKind::Alias).alias_ref = Some(origin);
    }

    fn declare_enum(&mut self, id: &str, table: &str) {
        let LuaType::TableConst(range) = self.expr_ty(table) else {
            panic!("an enum is a table");
        };
        let at = self
            .db
            .tables
            .owners
            .iter()
            .position(|known| known.owner.same(&LuaMemberOwner::Element(range)))
            .unwrap();
        let items = tables(&mut self.db).owners.remove(at).items;
        let mut values = Vec::new();
        for item in items {
            for typ in &item.types {
                values.push(match typ {
                    LuaType::StringConst(text) => LuaType::DocStringConst(text.clone()),
                    LuaType::IntegerConst(number) => LuaType::DocIntegerConst(*number),
                    other => other.clone(),
                });
            }
            for typ in item.types {
                let owner = LuaMemberOwner::Type(LuaTypeDeclId::global(id));
                self.add_member(owner, item.key.clone(), Some(typ));
            }
        }
        self.decl(id, LuaDeclKind::Enum).enum_fields = Some(TypeOps::union_all(&values));
    }

    /// An index holds no class that inherits from itself.
    fn drop_cycles(&mut self) {
        let mut cyclic = Vec::new();
        for (at, (id, decl)) in self.db.tables.type_decls.iter().enumerate() {
            for (place, parent) in decl.super_types.iter().enumerate() {
                let parent = match parent {
                    LuaType::Ref(parent) => parent.clone(),
                    LuaType::Generic(generic) => generic.get_base_type_id(),
                    _ => continue,
                };
                if is_sub_type_of(&self.db, &parent, id) {
                    cyclic.push((at, place));
                }
            }
        }
        for (at, place) in cyclic.into_iter().rev() {
            tables(&mut self.db).type_decls[at].1.super_types.remove(place);
        }
    }

    fn ty(&mut self, text: &str) -> LuaType {
        Reader::new(text, &[]).typ()
    }

    fn function(&mut self, text: &str) -> Arc<LuaFunctionType> {
        match self.ty(text) {
            LuaType::DocFunction(function) => function,
            other => panic!("not a function: {other:?}"),
        }
    }

    fn new_table(&mut self) -> InFiled {
        self.next_table += 1;
        let at = self.next_table;
        InFiled::new(FileId::new(1), TextRange { start: at, end: at })
    }

    fn expr_ty(&mut self, text: &str) -> LuaType {
        let mut reader = Reader::new(text, &[]);
        self.expr(&mut reader)
    }

    fn expr(&mut self, reader: &mut Reader) -> LuaType {
        if let Some(text) = reader.quoted() {
            return LuaType::StringConst(text);
        }
        if reader.eat("{") {
            let range = self.new_table();
            tables(&mut self.db).owners.push(LuaOwnerMembers {
                owner: LuaMemberOwner::Element(range),
                items: Vec::new(),
            });
            while !reader.eat("}") {
                let key = if reader.eat("[") {
                    let number = reader.word().parse::<i64>().unwrap();
                    assert!(reader.eat("]"));
                    LuaMemberKey::Integer(number)
                } else {
                    LuaMemberKey::Name(reader.word())
                };
                assert!(reader.eat("="));
                let value = self.expr(reader);
                self.add_member(LuaMemberOwner::Element(range), key, Some(value));
                reader.eat(",");
            }
            return LuaType::TableConst(range);
        }
        let word = reader.word();
        match word.as_str() {
            "nil" => LuaType::Nil,
            "true" => LuaType::BooleanConst(true),
            "false" => LuaType::BooleanConst(false),
            _ => {
                if reader.eat(".") {
                    let value: f64 = format!("{word}.{}", reader.rest()).parse().unwrap();
                    LuaType::FloatConst(LuaFloat::from_bits(value.to_bits()))
                } else {
                    LuaType::IntegerConst(word.parse().unwrap())
                }
            }
        }
    }

    fn check_type(&self, source: &LuaType, target: &LuaType) -> bool {
        is_assignable(&self.db, source, target, None)
    }

    /// Whether a call with these arguments fits the parameters of a function.
    fn call_fits(&mut self, function: &str, args: Vec<LuaType>) -> bool {
        let function = self.function(function);
        let call = CallArguments {
            arg_types: args,
            self_type: None,
            is_colon_call: false,
            has_colon_range: false,
        };
        check_param_type_mismatch(&self.db, &call, vec![function]).is_none()
    }

    fn member_type(&self, typ: &LuaType, key: &LuaMemberKey) -> Option<LuaType> {
        let members = collect_members(&self.db, typ);
        members.iter().find(|(known, _)| known == key).map(|(_, member)| member.typ(&self.db))
    }
}

fn check(db: &DbIndex, source: &LuaType, target: &LuaType) -> AssignabilityResult {
    check_assignable(db, source, target, None)
}

fn chain_messages(chain: &ErrorChain) -> Vec<ChainMessage> {
    let mut result = Vec::new();
    let mut current = Some(chain);
    while let Some(node) = current {
        result.push(node.message().clone());
        current = node.next();
    }
    result
}

fn probe(db: &DbIndex, source: &LuaType, target: &LuaType) -> RelationResult {
    probe_assignable(db, source, target, None)
}

#[test]
fn test_structural_class_relation_empty_classes() {
    let mut ws = Workspace::new();
    ws.def(
        r#"
        ---@class StructuralEmptyA
        ---@class StructuralEmptyB: StructuralEmptyA
        "#,
    );
    let a = ws.ty("StructuralEmptyA");
    let b = ws.ty("StructuralEmptyB");

    assert!(ws.check_type(&a, &b));
    assert!(ws.check_type(&b, &a));
}

#[test]
fn test_structural_class_relation_missing_fields() {
    let mut ws = Workspace::new();
    ws.def(
        r#"
        ---@class StructuralBaseA
        ---@field name string

        ---@class StructuralBaseB: StructuralBaseA
        ---@field extra integer
        "#,
    );
    let a = ws.ty("StructuralBaseA");
    let b = ws.ty("StructuralBaseB");

    assert!(!ws.check_type(&a, &b));
    assert!(ws.check_type(&b, &a));
}

#[test]
fn test_child_override_field_mismatch_reports_on_child_to_parent() {
    let mut ws = Workspace::new();
    ws.def(
        r#"
        ---@class OverrideParent
        ---@field value string

        ---@class OverrideChild: OverrideParent
        ---@field value integer
        "#,
    );
    let child = ws.ty("OverrideChild");
    let parent = ws.ty("OverrideParent");

    assert!(!ws.check_type(&child, &parent));
}

#[test]
fn test_primitive_source_to_unrelated_class_rejected() {
    let mut ws = Workspace::new();
    ws.def(
        r#"
        ---@class PrimitiveTargetEmpty
        ---@class PrimitiveTargetWithField
        ---@field value string
        "#,
    );
    let empty = ws.ty("PrimitiveTargetEmpty");
    let with_field = ws.ty("PrimitiveTargetWithField");
    assert!(!ws.check_type(&LuaType::Integer, &empty));
    assert!(!ws.check_type(&LuaType::String, &with_field));
}

#[test]
fn test_userdata_source_keeps_nominal_pass_to_subclass() {
    let mut ws = Workspace::new();
    ws.def(
        r#"
        ---@class UserDataChild: userdata
        ---@field tag string

        ---@class UnrelatedEmptyZ
        "#,
    );
    let child = ws.ty("UserDataChild");
    let unrelated = ws.ty("UnrelatedEmptyZ");
    assert!(ws.check_type(&LuaType::Userdata, &child));
    assert!(!ws.check_type(&LuaType::Userdata, &unrelated));
}

#[test]
fn test_string() {
    let mut ws = Workspace::new();

    let string_ty = ws.ty("string");

    let right_ty = ws.ty("'ssss'");
    assert!(ws.check_type(&right_ty, &string_ty));

    let right_ty = ws.ty("number");
    assert!(!ws.check_type(&right_ty, &string_ty));

    let right_ty = ws.ty("string | number");
    assert!(!ws.check_type(&right_ty, &string_ty));

    let right_ty = ws.ty("'a' | 'b' | 'c'");
    assert!(ws.check_type(&right_ty, &string_ty));
}

#[test]
fn test_callable_parameters_remain_contravariant() {
    let mut ws = Workspace::new();
    let broad_parameter = ws.ty("fun(value: string | number)");
    let narrow_parameter = ws.ty("fun(value: string)");

    assert!(ws.check_type(&broad_parameter, &narrow_parameter));
    assert!(!ws.check_type(&narrow_parameter, &broad_parameter));
}

#[test]
fn test_callable_declared_parameters_remain_contravariant() {
    let mut ws = Workspace::new();
    ws.def(
        r#"
        ---@class CallableVarianceParent
        ---@field a string

        ---@class CallableVarianceChild: CallableVarianceParent
        ---@field b number
        "#,
    );
    let parent = ws.ty("fun(value: CallableVarianceParent)");
    let child = ws.ty("fun(value: CallableVarianceChild)");

    assert!(ws.check_type(&parent, &child));
    assert!(!ws.check_type(&child, &parent));
}

#[test]
fn test_callable_union_parameters_remain_contravariant() {
    let mut ws = Workspace::new();
    ws.def(
        r#"
        ---@class CallableUnionVarianceParent
        ---@field a string

        ---@class CallableUnionVarianceChild: CallableUnionVarianceParent
        ---@field b number

        ---@class CallableUnionVarianceOther
        ---@field c boolean
        "#,
    );
    let parent = ws.ty("fun(value: CallableUnionVarianceParent | CallableUnionVarianceOther)");
    let child = ws.ty("fun(value: CallableUnionVarianceChild | CallableUnionVarianceOther)");

    assert!(ws.check_type(&parent, &child));
    assert!(!ws.check_type(&child, &parent));
}

#[test]
fn test_generic_class_call_operator_uses_instantiated_parameter_types() {
    let mut ws = Workspace::new();
    ws.def(
        r#"
        ---@class GenericCallable<T>
        ---@operator call(T): T
        "#,
    );
    let callable = ws.ty("GenericCallable<string>");
    let compatible = ws.ty("fun(value: string): string");
    let incompatible_parameter = ws.ty("fun(value: number): string");

    assert!(ws.check_type(&callable, &LuaType::Function));
    assert!(ws.check_type(&callable, &compatible));
    assert!(!ws.check_type(&callable, &incompatible_parameter));
    assert!(ws.check_type(&compatible, &callable));
    assert!(!ws.check_type(&incompatible_parameter, &callable));
}

#[test]
fn test_callable_declared_sources_still_check_required_members() {
    let mut ws = Workspace::new();
    ws.def(
        r#"
        ---@class CallableShapeLeft
        ---@field left string
        ---@operator call(string): string

        ---@class CallableShapeRight
        ---@field right number
        ---@operator call(string): string
        "#,
    );
    let left = ws.ty("CallableShapeLeft");
    let right = ws.ty("CallableShapeRight");
    let function = ws.ty("fun(value: string): string");

    assert!(!ws.check_type(&left, &right));
    assert!(!ws.check_type(&right, &left));
    assert!(ws.check_type(&left, &function));
    assert!(ws.check_type(&function, &left));
}

#[test]
fn test_inherited_generic_call_operator_participates_in_callable_relation() {
    let mut ws = Workspace::new();
    ws.def(
        r#"
        ---@class GenericCallableParent<T>
        ---@operator call(T): T

        ---@class StringCallableChild: GenericCallableParent<string>
        "#,
    );
    let callable = ws.ty("StringCallableChild");
    let compatible = ws.ty("fun(value: string)");
    let incompatible = ws.ty("fun(value: number)");
    let db = &ws.db;

    assert!(matches!(
        check(db, &callable, &compatible),
        AssignabilityResult::Assignable
    ));
    assert!(matches!(
        check(db, &compatible, &callable),
        AssignabilityResult::Assignable
    ));
    assert!(matches!(
        check(db, &callable, &incompatible),
        AssignabilityResult::NotAssignable(_)
    ));
    assert!(matches!(
        check(db, &incompatible, &callable),
        AssignabilityResult::NotAssignable(_)
    ));
}

#[test]
fn test_declared_call_operator_overrides_inherited_constructor_signature() {
    let mut ws = Workspace::new();
    ws.def(
        r#"
        ---@class CallableParent
        ---@operator call(string): string

        ---@class CallableChild: CallableParent
        ---@operator call(integer): integer
        "#,
    );
    let callable = ws.ty("CallableChild");
    let own_signature = ws.ty("fun(value: integer)");
    let inherited_signature = ws.ty("fun(value: string)");
    let db = &ws.db;

    assert!(matches!(
        check(db, &callable, &own_signature),
        AssignabilityResult::Assignable
    ));
    assert!(matches!(
        check(db, &own_signature, &callable),
        AssignabilityResult::Assignable
    ));
    assert!(matches!(
        check(db, &callable, &inherited_signature),
        AssignabilityResult::NotAssignable(_)
    ));
    assert!(matches!(
        check(db, &inherited_signature, &callable),
        AssignabilityResult::NotAssignable(_)
    ));
}

#[test]
fn test_metatable_call_operator_participates_in_callable_relation() {
    let mut ws = Workspace::new();
    let range = ws.new_table();
    let call = ws.function("fun(value: string)");
    tables(&mut ws.db).table_calls.push((range, vec![call]));
    let callable = LuaType::TableConst(range);
    let compatible = ws.ty("fun(value: string)");
    let incompatible = ws.ty("fun(value: number)");
    let db = &ws.db;

    assert!(matches!(
        check(db, &callable, &compatible),
        AssignabilityResult::Assignable
    ));
    assert!(matches!(
        check(db, &compatible, &callable),
        AssignabilityResult::Assignable
    ));
    assert!(matches!(
        check(db, &callable, &incompatible),
        AssignabilityResult::NotAssignable(_)
    ));
    assert!(matches!(
        check(db, &incompatible, &callable),
        AssignabilityResult::NotAssignable(_)
    ));
}

#[test]
fn test_field_fast_path_preserves_alias_source_expansion() {
    let mut ws = Workspace::new();
    ws.def(
        r#"
        ---@alias FieldTextAlias string
        ---@alias FieldShapeAlias { value: string }
        ---@alias GenericFieldShapeAlias<T> { value: T }
        "#,
    );
    let empty_object = ws.ty("{}");
    let shape_target = ws.ty("{ value: string }");
    let text_alias = ws.ty("FieldTextAlias");
    let shape_alias = ws.ty("FieldShapeAlias");
    let generic_shape_alias = ws.ty("GenericFieldShapeAlias<string>");
    let nested_text_alias = ws.ty("{ item: FieldTextAlias }");
    let nested_shape_alias = ws.ty("{ item: FieldShapeAlias }");
    let nested_generic_shape_alias = ws.ty("{ item: GenericFieldShapeAlias<string> }");
    let nested_empty_object = ws.ty("{ item: {} }");
    let nested_shape_target = ws.ty("{ item: { value: string } }");

    assert!(!ws.check_type(&text_alias, &empty_object));
    assert!(ws.check_type(&shape_alias, &shape_target));
    assert!(ws.check_type(&generic_shape_alias, &shape_target));
    assert!(!ws.check_type(&nested_text_alias, &nested_empty_object));
    assert!(ws.check_type(&nested_shape_alias, &nested_shape_target));
    assert!(ws.check_type(&nested_generic_shape_alias, &nested_shape_target));
}

#[test]
fn test_field_fast_path_preserves_enum_source_value_domain() {
    let mut ws = Workspace::new();
    ws.def(
        r#"
        ---@enum FieldTextEnum
        local FieldTextEnum = { First = "first", Second = "second" }
        "#,
    );
    let nested_source = ws.ty("{ item: FieldTextEnum }");
    let nested_string_target = ws.ty("{ item: string }");
    let nested_empty_target = ws.ty("{ item: {} }");

    assert!(ws.check_type(&nested_source, &nested_string_target));
    assert!(!ws.check_type(&nested_source, &nested_empty_target));
}

#[test]
fn test_enum_source_uses_value_domain_and_minimal_definition_table_rules() {
    let mut ws = Workspace::new();
    ws.def(
        r#"
        ---@enum DeclaredTextEnum
        local DeclaredTextEnum = { First = "first", Second = "second" }
        ---@enum DeclaredIntegerEnum
        local DeclaredIntegerEnum = { First = 1, Second = 2 }
        ---@enum DeclaredTextEnumCopy
        local DeclaredTextEnumCopy = { First = "first", Second = "second" }
        ---@enum DeclaredTextEnumNarrow
        local DeclaredTextEnumNarrow = { First = "first" }
        ---@enum DeclaredTableEnum
        local DeclaredTableEnum = {
            First = { value = "first" },
            Second = { value = "second" },
        }
        ---@class PlainDeclaredClass
        "#,
    );
    let text_enum = ws.ty("DeclaredTextEnum");
    let integer_enum = ws.ty("DeclaredIntegerEnum");
    let text_enum_copy = ws.ty("DeclaredTextEnumCopy");
    let text_enum_narrow = ws.ty("DeclaredTextEnumNarrow");
    let table_enum = ws.ty("DeclaredTableEnum");
    let text_enum_def = LuaType::Def(LuaTypeDeclId::global("DeclaredTextEnum"));
    let text_enum_copy_def = LuaType::Def(LuaTypeDeclId::global("DeclaredTextEnumCopy"));
    let class = ws.ty("PlainDeclaredClass");
    let empty_object = ws.ty("{}");
    let tuple = ws.ty("[string]");
    let array = ws.ty("string[]");
    let table_generic = ws.ty("table<string, string>");
    let table_shape = ws.ty("{ value: string }");

    assert!(ws.check_type(&text_enum, &LuaType::String));
    assert!(!ws.check_type(&text_enum, &LuaType::Integer));
    assert!(ws.check_type(&integer_enum, &LuaType::Integer));
    assert!(!ws.check_type(&integer_enum, &LuaType::String));
    assert!(!ws.check_type(&class, &LuaType::String));
    assert!(!ws.check_type(&class, &LuaType::Integer));
    assert!(ws.check_type(&text_enum, &text_enum_copy));
    assert!(ws.check_type(&text_enum_def, &text_enum_copy_def));
    assert!(!ws.check_type(&text_enum, &text_enum_narrow));
    assert!(ws.check_type(&text_enum_narrow, &text_enum));
    assert!(!ws.check_type(&text_enum, &class));
    assert!(!ws.check_type(&class, &text_enum));
    assert!(!ws.check_type(&text_enum, &LuaType::Table));
    assert!(!ws.check_type(&text_enum, &LuaType::Userdata));
    assert!(!ws.check_type(&text_enum, &empty_object));
    assert!(!ws.check_type(&text_enum, &tuple));
    assert!(!ws.check_type(&text_enum, &array));
    assert!(!ws.check_type(&text_enum, &table_generic));
    assert!(ws.check_type(&text_enum_def, &LuaType::Table));
    assert!(ws.check_type(&text_enum_def, &table_generic));
    assert!(ws.check_type(&table_enum, &LuaType::Table));
    assert!(ws.check_type(&table_enum, &table_shape));
}

#[test]
fn test_indeterminate_is_conservative_only_for_plain_assignability() {
    let db = DbIndex::new();
    let mut source = LuaType::String;
    let mut target = LuaType::Number;
    for _ in 0..101 {
        source = LuaType::Array(LuaArrayType::from_base_type(source).into());
        target = LuaType::Array(LuaArrayType::from_base_type(target).into());
    }

    assert!(is_assignable(&db, &source, &target, None));
    assert!(matches!(
        probe(&db, &source, &target),
        Err(RelationFailure::Indeterminate(_))
    ));
    assert!(matches!(
        check(&db, &source, &target),
        AssignabilityResult::Indeterminate(_)
    ));
}

#[test]
fn test_target_intersection_unrelated_member_overrides_indeterminate_member() {
    let db = DbIndex::new();
    let mut source = LuaType::String;
    let mut deep_target = LuaType::Number;
    for _ in 0..101 {
        source = LuaType::Array(LuaArrayType::from_base_type(source).into());
        deep_target = LuaType::Array(LuaArrayType::from_base_type(deep_target).into());
    }
    let target = LuaType::Intersection(
        LuaIntersectionType::new(vec![deep_target, LuaType::Boolean]).into(),
    );

    assert_eq!(
        probe(&db, &source, &target),
        Err(RelationFailure::Unrelated)
    );
}

#[test]
fn test_same_family_generic_mismatch_does_not_probe_super_types() {
    let mut ws = Workspace::new();
    ws.def(
        r#"
        ---@class GenericMismatchParent
        ---@class GenericMismatchChild<T>: GenericMismatchParent
        ---@field value T
        "#,
    );
    let source = ws.ty("GenericMismatchChild<string>");
    let target = ws.ty("GenericMismatchChild<number>");
    assert!(!ws.check_type(&source, &target));
}

#[test]
fn test_same_family_generic_alias_direct_argument_mismatch() {
    let mut ws = Workspace::new();
    ws.def(
        r#"
        ---@alias Box<T> { value: T }
        ---@alias DeepBox<T> Box<Box<Box<T>>>
        "#,
    );
    let source = ws.ty("DeepBox<string>");
    let target = ws.ty("DeepBox<number>");

    assert!(!ws.check_type(&source, &target));

    let chain = match check(&ws.db, &source, &target) {
        AssignabilityResult::NotAssignable(chain) => chain.expect("chain must exist"),
        other => panic!("expected not assignable, got {:?}", other),
    };

    let messages = chain_messages(&chain);
    assert_eq!(
        messages,
        vec![
            ChainMessage::Field {
                name: "value.value.value".to_string()
            },
            ChainMessage::NotAssignable {
                source: LuaType::String,
                target: LuaType::Number,
            },
        ]
    );
}

#[test]
fn test_same_family_generic_alias_keeps_contravariant_positions() {
    let mut ws = Workspace::new();
    ws.def(
        r#"
        ---@alias Handler<T> fun(value: T)

        ---@class HandlerVarianceParent
        ---@field a string

        ---@class HandlerVarianceChild : HandlerVarianceParent
        ---@field b number
        "#,
    );
    let broad = ws.ty("Handler<HandlerVarianceParent>");
    let narrow = ws.ty("Handler<HandlerVarianceChild>");
    assert!(ws.check_type(&broad, &narrow));
    assert!(!ws.check_type(&narrow, &broad));
}

#[test]
fn test_same_family_generic_alias_nullable_contravariant_position() {
    let mut ws = Workspace::new();
    ws.def(
        r#"
        ---@class NullableVarianceBase
        ---@alias NullableHandler<T> fun(value: T)
        "#,
    );
    let source = ws.ty("NullableHandler<NullableVarianceBase>");
    let target = ws.ty("NullableHandler<NullableVarianceBase?>");
    assert!(!ws.check_type(&source, &target));

    ws.def("---@alias NullableBox<T> { value: T }");
    let box_source = ws.ty("NullableBox<NullableVarianceBase>");
    let box_target = ws.ty("NullableBox<NullableVarianceBase?>");
    assert!(ws.check_type(&box_source, &box_target));
}

#[test]
fn test_same_family_multi_param_alias_reports_actual_failure() {
    let mut ws = Workspace::new();
    ws.def("---@alias MixedVariance<A, B> { set: fun(value: A), value: B }");

    let source = ws.ty("MixedVariance<string | number, string>");
    let target = ws.ty("MixedVariance<string, number>");
    let chain = match check(&ws.db, &source, &target) {
        AssignabilityResult::NotAssignable(chain) => chain.expect("chain must exist"),
        other => panic!("expected not assignable, got {:?}", other),
    };

    let messages = chain_messages(&chain);
    assert_eq!(
        messages,
        vec![
            ChainMessage::Field {
                name: "value".to_string()
            },
            ChainMessage::NotAssignable {
                source: LuaType::String,
                target: LuaType::Number,
            },
        ]
    );
}

#[test]
fn test_same_family_generic_class_contravariant_position() {
    let mut ws = Workspace::new();
    ws.def(
        r#"
        ---@class HandlerVarianceAnimal
        ---@field name string

        ---@class HandlerVarianceDog: HandlerVarianceAnimal
        ---@field trick string

        ---@class HandlerVarianceBox<T>
        ---@field callback fun(value: T): boolean
        "#,
    );
    let animal = ws.ty("HandlerVarianceBox<HandlerVarianceAnimal>");
    let dog = ws.ty("HandlerVarianceBox<HandlerVarianceDog>");

    assert!(ws.check_type(&animal, &dog));
    assert!(!ws.check_type(&dog, &animal));
}

#[test]
fn test_nullable_ref_fast_path() {
    let mut ws = Workspace::new();
    ws.def("---@class LegacyFastPathRef");
    let source = ws.ty("LegacyFastPathRef?");
    let target = ws.ty("LegacyFastPathRef");

    assert!(matches!(&source, LuaType::Union(_)));
    assert!(matches!(&target, LuaType::Ref(_)));
    assert!(!ws.check_type(&source, &target));
}

#[test]
fn test_generic_target_completes_ref_source_default_arguments() {
    let mut ws = Workspace::new();
    ws.def(
        r#"
        ---@class DefaultGeneric<T = string>
        ---@field value T
        "#,
    );

    let source = LuaType::Ref(LuaTypeDeclId::global("DefaultGeneric"));
    let compatible = ws.ty("DefaultGeneric<string>");
    let incompatible = ws.ty("DefaultGeneric<number>");

    assert!(ws.check_type(&source, &compatible));
    assert!(!ws.check_type(&source, &incompatible));
}

#[test]
fn test_uninstantiated_generic_target_matches_nested_field_relation() {
    let mut ws = Workspace::new();
    ws.def(
        r#"
        ---@class NestedTemplateTarget<T>
        ---@field required string
        ---@class NestedMissingRequired
        ---@class NestedMatchingRequired
        ---@field required string
        "#,
    );
    let target_item = LuaType::Generic(
        LuaGenericType::new(
            LuaTypeDeclId::global("NestedTemplateTarget"),
            vec![LuaType::TplRef(
                GenericTpl::new(GenericTplId::Type(0), "T".into(), None, None, false, None)
                    .into(),
            )],
        )
        .into(),
    );
    let target = LuaType::Object(
        LuaObjectType::new(vec![(
            LuaIndexAccessKey::String("item".into()),
            target_item,
        )])
        .into(),
    );
    let missing = ws.ty("{ item: NestedMissingRequired }");
    let matching = ws.ty("{ item: NestedMatchingRequired }");

    assert!(!ws.check_type(&missing, &target));
    assert!(ws.check_type(&matching, &target));
}

#[test]
fn test_number_types() {
    let mut ws = Workspace::new();

    let number_ty = ws.ty("number");
    let integer_ty = ws.ty("integer");

    let number_expr1 = ws.expr_ty("1");
    assert!(ws.check_type(&number_expr1, &number_ty));
    let number_expr2 = ws.expr_ty("1.5");
    assert!(ws.check_type(&number_expr2, &number_ty));

    assert!(ws.check_type(&integer_ty, &number_ty));
    assert!(!ws.check_type(&number_ty, &integer_ty));

    let number_union = ws.ty("1 | 2 | 3");
    assert!(ws.check_type(&number_union, &number_ty));
    assert!(ws.check_type(&number_union, &integer_ty));
}

#[test]
fn test_union_types() {
    let mut ws = Workspace::new();

    let ty_union = ws.ty("number | string");
    let ty_number = ws.ty("number");
    let ty_string = ws.ty("string");
    let ty_boolean = ws.ty("boolean");

    assert!(ws.check_type(&ty_number, &ty_union));
    assert!(ws.check_type(&ty_string, &ty_union));
    assert!(!ws.check_type(&ty_boolean, &ty_union));
    assert!(ws.check_type(&ty_union, &ty_union));

    let ty_union2 = ws.ty("number | string | boolean");
    assert!(ws.check_type(&ty_number, &ty_union2));
    assert!(ws.check_type(&ty_string, &ty_union2));
    assert!(ws.check_type(&ty_union, &ty_union2));
    assert!(ws.check_type(&ty_union2, &ty_union2));

    let ty_union3 = ws.ty("1 | 2 | 3");
    let ty_union4 = ws.ty("1 | 2");

    assert!(ws.check_type(&ty_union4, &ty_union3));
    assert!(!ws.check_type(&ty_union3, &ty_union4));
    assert!(ws.check_type(&ty_union3, &ty_union3));
}

#[test]
fn test_recursive_alias_accepts_expanded_origin_members() {
    let mut ws = Workspace::new();
    ws.def(
        r#"
    ---@alias Recursive string | (Recursive[])
    "#,
    );

    let recursive_ty = ws.ty("Recursive");
    let expanded_ty = ws.ty("string | Recursive[]");
    let invalid_ty = ws.ty("boolean | Recursive[]");

    assert!(ws.check_type(&expanded_ty, &recursive_ty));
    assert!(!ws.check_type(&invalid_ty, &recursive_ty));
}

#[test]
fn test_recursive_object_aliases_close_the_active_relation() {
    let mut ws = Workspace::new();
    ws.def(
        r#"
        ---@alias NodeA { value: string, next: NodeA }
        ---@alias NodeB { value: string, next: NodeB }
        ---@alias WrongNode { value: integer, next: WrongNode }
        "#,
    );
    let source = ws.ty("NodeA");
    let compatible = ws.ty("NodeB");
    let incompatible = ws.ty("WrongNode");
    let db = &ws.db;
    assert_eq!(
        probe(db, &source, &compatible),
        Ok(())
    );
    assert_eq!(
        check(db, &source, &compatible),
        AssignabilityResult::Assignable
    );
    assert_eq!(
        probe(db, &source, &incompatible),
        Err(RelationFailure::Unrelated)
    );
}

#[test]
fn test_generic_recursive_alias_accepts_expanded_origin_members() {
    let mut ws = Workspace::new();
    ws.def(
        r#"
    ---@alias Recursive<T> T | (Recursive<T>[])
    "#,
    );

    let recursive_ty = ws.ty("Recursive<string>");
    let expanded_ty = ws.ty("string | Recursive<string>[]");
    let invalid_ty = ws.ty("boolean | Recursive<string>[]");

    assert!(ws.check_type(&expanded_ty, &recursive_ty));
    assert!(!ws.check_type(&invalid_ty, &recursive_ty));
}

#[test]
fn test_mutually_recursive_generic_aliases_close_by_active_relation() {
    let mut ws = Workspace::new();
    ws.def(
        r#"
        ---@alias RecursiveA<T> { value: T, next: RecursiveA<T> }
        ---@alias RecursiveB<T> { value: T, next: RecursiveB<T> }
        "#,
    );

    let source = ws.ty("RecursiveA<string>");
    let compatible = ws.ty("RecursiveB<string>");
    let incompatible = ws.ty("RecursiveB<number>");

    assert!(ws.check_type(&source, &compatible));
    assert!(!ws.check_type(&source, &incompatible));
}

#[test]
fn test_object_types() {
    let mut ws = Workspace::new();

    // case 1
    {
        let object_ty = ws.ty("{ x: number, y: string }");
        let matched_object_ty2 = ws.ty("{ x: 1, y: 'test' }");
        let mismatch_object_ty2 = ws.ty("{ x: 2, y: 3 }");
        let matched_table_ty = ws.expr_ty("{ x = 1, y = 'test' }");
        let mismatch_table_ty = ws.expr_ty("{ x = 2, y = 3 }");

        assert!(ws.check_type(&matched_object_ty2, &object_ty));
        assert!(!ws.check_type(&mismatch_object_ty2, &object_ty));
        assert!(ws.check_type(&matched_table_ty, &object_ty));
        assert!(!ws.check_type(&mismatch_table_ty, &object_ty));
    }

    // case for tuple, object, and table
    {
        let object_ty = ws.ty("{ [1]: string, [2]: number }");
        let matched_tulple_ty = ws.ty("[string, number");
        let matched_object_ty = ws.ty("{ [1]: 'test', [2]: 1 }");

        assert!(ws.check_type(&matched_tulple_ty, &object_ty));
        assert!(ws.check_type(&matched_object_ty, &object_ty));
        let mismatch_tulple_ty = ws.ty("[number, string]");
        assert!(!ws.check_type(&mismatch_tulple_ty, &object_ty));

        let matched_table_ty = ws.expr_ty("{ [1] = 'test', [2] = 1 }");
        assert!(ws.check_type(&matched_table_ty, &object_ty));
    }

    // issue #69
    {
        let object_ty = ws.ty("{ [1]: number, [2]: integer }?");

        assert!(ws.check_type(&object_ty, &object_ty));
    }
}

#[test]
fn test_table_const_target_required_and_optional_fields() {
    let mut ws = Workspace::new();
    let target = ws.expr_ty("{ required = 1, optional = nil }");
    let compatible = ws.ty("{ required: integer }");
    let incompatible = ws.ty("{ required: string }");
    let missing = ws.ty("{}");
    let db = &ws.db;

    assert_eq!(
        check(db, &compatible, &target),
        AssignabilityResult::Assignable
    );
    for source in [&incompatible, &missing] {
        assert!(matches!(
            check(db, source, &target),
            AssignabilityResult::NotAssignable(_)
        ));
    }
}

#[test]
fn test_declared_targets_use_effective_inherited_members() {
    let mut ws = Workspace::new();
    ws.def(
        r#"
        ---@class StructuralTarget: { required: string }

        ---@class GenericTargetBase<T>
        ---@field value T

        ---@class GenericTarget: GenericTargetBase<string>
        "#,
    );

    let empty = ws.ty("{}");
    let structural_source = ws.ty("{ required: string }");
    let structural_target = ws.ty("StructuralTarget");
    assert!(!ws.check_type(&empty, &structural_target));
    assert!(ws.check_type(&structural_source, &structural_target));

    let matching_generic_source = ws.ty("{ value: string }");
    let mismatch_generic_source = ws.ty("{ value: number }");
    let generic_target = ws.ty("GenericTarget");
    assert!(ws.check_type(&matching_generic_source, &generic_target));
    assert!(!ws.check_type(&mismatch_generic_source, &generic_target));
}

#[test]
fn test_declared_targets_instantiate_effective_index_members() {
    let mut ws = Workspace::new();
    ws.def(
        r#"
        ---@class GenericIndexBase<T>
        ---@field [T] string

        ---@class GenericIndexTarget: GenericIndexBase<integer>

        ---@class StructuralIndexTarget<T>: table<integer, T>
        "#,
    );

    let integer_string_table = ws.ty("table<integer, string>");
    let integer_number_table = ws.ty("table<integer, number>");
    let generic_index_target = ws.ty("GenericIndexTarget");
    let structural_index_target = ws.ty("StructuralIndexTarget<string>");

    assert!(ws.check_type(&integer_string_table, &generic_index_target));
    assert!(!ws.check_type(&integer_number_table, &generic_index_target));
    assert!(ws.check_type(&integer_string_table, &structural_index_target));
    assert!(!ws.check_type(&integer_number_table, &structural_index_target));
}

#[test]
fn test_array_types() {
    let mut ws = Workspace::new();

    let array_ty = ws.ty("number[]");
    let matched_tuple_ty = ws.ty("[1, 2, 3]");
    let mismatch_array_ty = ws.ty("['a', 'b', 'c']");

    assert!(ws.check_type(&matched_tuple_ty, &array_ty));
    assert!(!ws.check_type(&mismatch_array_ty, &array_ty));

    let array_ty2 = ws.ty("integer[]");
    assert!(ws.check_type(&array_ty2, &array_ty));
    assert!(!ws.check_type(&array_ty, &array_ty2));
}

#[test]
fn test_structured_sequence_relation_keeps_source_direction() {
    let mut ws = Workspace::new();
    let tuple_source = ws.ty("[integer, integer]");
    let array_target = ws.ty("integer[]");
    let number_target = ws.ty("number[]");

    assert!(ws.check_type(&tuple_source, &array_target));
    assert!(!ws.check_type(&array_target, &tuple_source));
    assert!(!ws.check_type(&number_target, &tuple_source));
}

#[test]
fn test_array_to_tuple_rejects_unknown_length_in_non_strict_mode() {
    let mut ws = Workspace::new();
    tables(&mut ws.db).strict_array_index = false;
    let array_source = ws.ty("integer[]");
    let tuple_target = ws.ty("[integer, integer]");
    let variadic_target = ws.ty("[integer...]");

    assert!(ws.check_type(&array_source, &variadic_target));
    assert!(!ws.check_type(&array_source, &tuple_target));
}

#[test]
fn test_array_to_tuple_accepts_guaranteed_prefix_length() {
    let mut ws = Workspace::new();
    let array_source =
        LuaType::Array(LuaArrayType::new(LuaType::Integer, LuaArrayLen::Max(2)).into());
    let tuple_target = ws.ty("[integer, integer]");

    assert!(ws.check_type(&array_source, &tuple_target));
}

#[test]
fn test_structured_table_generic_relation_keeps_source_direction() {
    let mut ws = Workspace::new();
    let narrow_key = ws.ty("table<integer, string>");
    let wide_key = ws.ty("table<number, string>");

    assert!(ws.check_type(&narrow_key, &wide_key));
    assert!(!ws.check_type(&wide_key, &narrow_key));
}

#[test]
fn test_table_generic_keys_are_stricter_than_object_indexes() {
    let mut ws = Workspace::new();
    ws.def("---@class NamedIndexSource\n---@field label integer");
    let index_target = ws.ty("{ [integer]: number }");
    let table_target = ws.ty("table<integer, number>");
    for source in [
        ws.ty("{ label: integer }"),
        ws.ty("NamedIndexSource"),
        ws.expr_ty("{ label = 1 }"),
    ] {
        assert!(ws.check_type(&source, &index_target));
        assert!(!ws.check_type(&source, &table_target));
    }
}

#[test]
fn test_wide_table_accepts_class_targets_without_accepting_other_declared_types() {
    let mut ws = Workspace::new();
    ws.def(
        r#"
        ---@class WideTableClass
        ---@field value string
        ---@class WideTableGeneric<T>
        ---@field value T
        "#,
    );
    ws.def(
        r#"
        ---@alias WideTableAlias string
        "#,
    );
    ws.def(
        r#"
        ---@enum WideTableEnum
        local WideTableEnum = { Value = "value" }
        "#,
    );
    let wide_table = LuaType::Table;
    let class_target = ws.ty("WideTableClass");
    let generic_target = ws.ty("WideTableGeneric<string>");
    let alias_target = ws.ty("WideTableAlias");
    let enum_target = ws.ty("WideTableEnum");

    assert!(ws.check_type(&wide_table, &class_target));
    assert!(ws.check_type(&wide_table, &generic_target));
    assert!(!ws.check_type(&wide_table, &alias_target));
    assert!(!ws.check_type(&wide_table, &enum_target));
}

#[test]
fn test_object_source_explicitly_relates_to_generic_target() {
    let mut ws = Workspace::new();
    ws.def(
        r#"
        ---@class RequiredGeneric<T>
        ---@field value T
        "#,
    );
    let shape_source = ws.ty("{ value: string, extra: integer }");
    let generic_target = ws.ty("RequiredGeneric<string>");
    let mismatched_source = ws.ty("{ value: number }");

    assert!(ws.check_type(&shape_source, &generic_target));
    assert!(!ws.check_type(&generic_target, &shape_source));
    assert!(!ws.check_type(&mismatched_source, &generic_target));
}

#[test]
fn test_structured_member_keeps_source_direction() {
    let mut ws = Workspace::new();
    let source_with_extra = ws.ty("{ value: string, extra: integer }");
    let target_without_extra = ws.ty("{ value: string }");

    assert!(ws.check_type(&source_with_extra, &target_without_extra));
    assert!(!ws.check_type(&target_without_extra, &source_with_extra));
}

#[test]
fn test_structured_target_requires_explicit_source_dispatch() {
    let mut ws = Workspace::new();
    let scalar_source = ws.ty("string");
    let array_source = ws.ty("string[]");
    let empty_object_target = ws.ty("{}");
    let empty_table_target = ws.expr_ty("{}");

    assert!(!ws.check_type(&scalar_source, &empty_object_target));
    assert!(ws.check_type(&array_source, &empty_object_target));
    assert!(!ws.check_type(&scalar_source, &empty_table_target));
    assert!(ws.check_type(&array_source, &empty_table_target));
}

#[test]
fn test_structured_index_member_keeps_source_direction() {
    let mut ws = Workspace::new();
    let named_field_source = ws.ty("{ value: integer }");
    let string_index_target = ws.ty("{ [string]: number }");

    assert!(ws.check_type(&named_field_source, &string_index_target));
    assert!(!ws.check_type(&string_index_target, &named_field_source));
}

#[test]
fn test_sequence_requires_target_index_signature() {
    let mut ws = Workspace::new();
    let array_source = ws.ty("number[]");
    let tuple_source = ws.ty("[number]");
    let string_index_target = ws.ty("{ [string]: boolean }");

    assert!(!ws.check_type(&array_source, &string_index_target));
    assert!(!ws.check_type(&tuple_source, &string_index_target));
}

#[test]
fn test_sequence_required_index_keeps_nullable_element_mismatch() {
    let mut ws = Workspace::new();
    let nullable_array = ws.ty("(string?)[]");
    let required_index_target = ws.ty("{ [1]: string }");

    assert!(!ws.check_type(&nullable_array, &required_index_target));
}

#[test]
fn test_tuple_types() {
    let mut ws = Workspace::new();

    let tuple_ty = ws.ty("[number, string]");
    let matched_tuple_ty = ws.ty("[1, 'test']");
    let mismatch_tuple_ty = ws.ty("['a', 1]");

    assert!(ws.check_type(&matched_tuple_ty, &tuple_ty));
    assert!(!ws.check_type(&mismatch_tuple_ty, &tuple_ty));

    let tuple_ty2 = ws.ty("[integer, string]");
    assert!(ws.check_type(&tuple_ty2, &tuple_ty));
    assert!(!ws.check_type(&tuple_ty, &tuple_ty2));
}

#[test]
fn test_tuple_source_expands_target_variadic_elements() {
    let mut ws = Workspace::new();
    let compatible = ws.ty("[string, string]");
    let incompatible = ws.ty("[string, boolean]");
    let target = ws.ty("[string...]");

    assert!(ws.check_type(&compatible, &target));
    assert!(!ws.check_type(&incompatible, &target));
}

#[test]
fn test_issue_86() {
    let mut ws = Workspace::new();

    let ty = ws.ty("string?");
    let ty2 = ws.ty("any");
    assert!(ws.check_type(&ty2, &ty));
}

#[test]
fn test_issue_634() {
    let mut ws = Workspace::new();

    ws.def(
        r#"
        ---@class A
        ---@field a integer
        "#,
    );
    let y = ws.ty("A");
    assert!(!ws.call_fits("fun(x: table<integer,string>)", vec![y]));
}

#[test]
fn test_issue_790() {
    let mut ws = Workspace::new();
    ws.def(
        r#"
    ---@class Holder<T>

    ---@class StringHolder: Holder<string>

    ---@class NumberHolder: Holder<number>

    ---@class StringHolderWith<T>: Holder<string>
    "#,
    );

    let function = "fun(a: Holder<string>, b: Holder<string>)";
    let args = vec![ws.ty("Holder<string>"), ws.ty("NumberHolder")];
    assert!(ws.call_fits(function, args));

    let args = vec![ws.ty("Holder<string>"), ws.ty("StringHolderWith<table>")];
    assert!(ws.call_fits(function, args));
}

#[test]
fn test_intersection_is_table_subtype() {
    let mut ws = Workspace::new();

    // [integer] & { n: integer } should be assignable to table
    let intersection_ty = ws.ty("integer[] & { n: integer }");
    let table_ty = ws.ty("table");
    assert!(
        ws.check_type(&intersection_ty, &table_ty),
        "integer[] & {{ n: integer }} should be a subtype of table"
    );

    // As an argument for a table parameter
    assert!(ws.call_fits("fun(t: table)", vec![intersection_ty.clone()]));

    // As a value for a table variable
    assert!(ws.check_type(&intersection_ty, &table_ty));

    // Intersection type should be assignable to an array type (non-generic)
    let array_ty = ws.ty("integer[]");
    assert!(
        ws.check_type(&intersection_ty, &array_ty),
        "integer[] & {{ n: integer }} should be assignable to integer[]"
    );

    // Intersection type should be assignable to an array parameter (non-generic)
    assert!(ws.call_fits("fun(t: integer[])", vec![intersection_ty.clone()]));

    // Intersection type should be assignable to a array parameter whose element type is taken from the argument
    assert!(ws.call_fits("fun(t: integer[])", vec![intersection_ty.clone()]));

    // Intersection type should be assignable to table<integer, V> with V taken from the argument
    assert!(ws.call_fits("fun(t: table<integer, integer>)", vec![intersection_ty.clone()]));
}

#[test]
fn test_nested_semantic_accept_on_recursive_relate() {
    let mut ws = Workspace::new();

    // Nested target any: string <: any only via recursive semantic accept.
    let source = ws.ty("{ value: string }");
    let target = ws.ty("{ value: any }");
    assert!(ws.check_type(&source, &target));

    let source = ws.ty("{ nested: { value: integer } }");
    let target = ws.ty("{ nested: { value: any } }");
    assert!(ws.check_type(&source, &target));

    let source = ws.ty("string[]");
    let target = ws.ty("any[]");
    assert!(ws.check_type(&source, &target));

    let source = ws.ty("fun(x: string): integer");
    let target = ws.ty("fun(x: any): any");
    assert!(ws.check_type(&source, &target));

    // Nested target unknown.
    let source = ws.ty("{ value: string }");
    let target = ws.ty("{ value: unknown }");
    assert!(ws.check_type(&source, &target));

    // Source any nested under structure still assigns to concrete target fields
    // (source Any is accepted against anything).
    let source = ws.ty("{ value: any }");
    let target = ws.ty("{ value: string }");
    assert!(ws.check_type(&source, &target));

    // Diagnostic path: assigning concrete table into any-field should not error.
    let sink = ws.ty("{ value: any }");
    let value = ws.expr_ty("{ value = \"ok\" }");
    assert!(ws.check_type(&value, &sink));
    let opts = ws.expr_ty("{ flag = true }");
    assert!(ws.call_fits("fun(opts: { flag: any })", vec![opts]));
}

#[test]
fn test_nullable_target_relates_non_nil_and_nil_branches() {
    let db = DbIndex::new();
    let target = LuaType::Union(LuaUnionType::Nullable(LuaType::String).into());

    assert_eq!(
        probe(&db, &LuaType::String, &target),
        Ok(())
    );
    assert_eq!(
        probe(&db, &LuaType::Nil, &target),
        Ok(())
    );
    assert_eq!(
        probe(&db, &LuaType::Number, &target),
        Err(RelationFailure::Unrelated)
    );
}

#[test]
fn failed_root_does_not_cache_success_from_recursive_assumptions() {
    let mut ws = Workspace::new();
    ws.def(
        r#"
        ---@class CacheRootSource
        ---@field child CacheChildSource
        ---@field value string
        ---@class CacheRootTarget
        ---@field child CacheChildTarget
        ---@field value number
        ---@class CacheChildSource
        ---@field back CacheRootSource
        ---@class CacheChildTarget
        ---@field back CacheRootTarget
    "#,
    );
    let source = ws.ty("CacheRootSource");
    let target = ws.ty("CacheRootTarget");
    let child_source = ws.ty("CacheChildSource");
    let child_target = ws.ty("CacheChildTarget");
    let db = &ws.db;
    let cache = SemanticLocalCache::default();
    let mut relater = Relater::new(db, cache, EvidenceMode::Silent);
    assert_eq!(
        relater.relate(&source, &target, IntersectionState::Plain),
        Err(RelationFailure::Unrelated)
    );
    assert!(relater.assumption_count() > 0);
    assert_eq!(relater.recursion_depth(), 0);
    assert!(relater.active_count() == 0);
    let (mut cache, _) = relater.finish();
    assert!(!cache.relations.contains_key(&child_source, &child_target, IntersectionState::Plain));
    assert_eq!(
        probe_assignable(db, &child_source, &child_target, Some(&mut cache)),
        Err(RelationFailure::Unrelated)
    );
    assert_eq!(
        cache.relations.get(&child_source, &child_target, IntersectionState::Plain),
        Some(false)
    );
}

#[test]
fn successful_recursive_root_can_be_reused_without_budget() {
    let mut ws = Workspace::new();
    ws.def(
        r#"
        ---@class CacheRecursiveSource
        ---@field next CacheRecursiveSource
        ---@class CacheRecursiveTarget
        ---@field next CacheRecursiveTarget
    "#,
    );
    let source = ws.ty("CacheRecursiveSource");
    let target = ws.ty("CacheRecursiveTarget");
    let db = &ws.db;
    let cache = SemanticLocalCache::default();
    let mut relater = Relater::new(db, cache, EvidenceMode::Silent);
    assert_eq!(
        relater.relate(&source, &target, IntersectionState::Plain),
        Ok(())
    );
    assert!(relater.assumption_count() > 0);
    assert_eq!(relater.recursion_depth(), 0);
    assert!(relater.active_count() == 0);
    relater.set_relation_budget(0);
    assert_eq!(
        relater.relate(&source, &target, IntersectionState::Plain),
        Ok(())
    );
}

#[test]
fn indeterminate_relations_leave_no_cache_or_active_scope() {
    let mut ws = Workspace::new();
    ws.def(
        r#"
        ---@class CacheLimitedSource
        ---@field next CacheLimitedSource
        ---@class CacheLimitedTarget
        ---@field next CacheLimitedTarget
    "#,
    );
    let source = ws.ty("CacheLimitedSource");
    let target = ws.ty("CacheLimitedTarget");
    let db = &ws.db;
    for kind in [OverflowKind::Budget, OverflowKind::Recursion] {
        let cache = SemanticLocalCache::default();
        let mut relater = Relater::new(db, cache, EvidenceMode::Silent);
        let initial_depth = match kind {
            OverflowKind::Budget => {
                relater.set_relation_budget(1);
                0
            }
            OverflowKind::Recursion => 99,
        };
        relater.set_recursion_depth(initial_depth);
        assert_eq!(
            relater.relate(&source, &target, IntersectionState::Plain),
            Err(RelationFailure::Indeterminate(kind))
        );
        assert_eq!(relater.recursion_depth(), initial_depth);
        assert!(relater.active_count() == 0);
        assert!(relater.relations().is_empty());
        relater.set_recursion_depth(0);
        relater.set_relation_budget(20_000);
        assert_eq!(
            relater.relate(&source, &target, IntersectionState::Plain),
            Ok(())
        );
    }
}

#[test]
fn failed_probe_rebuilds_the_same_field_and_missing_member_diagnostics() {
    let mut ws = Workspace::new();
    let cases = [
        (
            ws.ty("{ branch: { value: string } }"),
            ws.ty("{ branch: { value: number } }"),
        ),
        (
            ws.ty("{ id: string }"),
            ws.ty("{ id: string, name: string, count: number }"),
        ),
    ];
    let db = &ws.db;
    for (index, (source, target)) in cases.into_iter().enumerate() {
        let expected = check_assignable(db, &source, &target, None);
        let AssignabilityResult::NotAssignable(Some(chain)) = &expected else {
            panic!("expected a diagnostic for incompatible members");
        };
        if index == 0 {
            assert_eq!(
                chain.message(),
                &ChainMessage::Field {
                    name: "branch.value".into()
                }
            );
        } else {
            assert!(matches!(chain.message(), ChainMessage::MissingMembers(_)));
        }
        let mut cache = SemanticLocalCache::default();
        assert_eq!(
            probe_assignable(db, &source, &target, Some(&mut cache)),
            Err(RelationFailure::Unrelated)
        );
        for _ in 0..2 {
            assert_eq!(
                check_assignable(db, &source, &target, Some(&mut cache)),
                expected
            );
        }
    }
}

#[test]
fn declared_sequences_use_all_duplicate_index_declarations() {
    let mut ws = Workspace::new();
    ws.def(
        r#"
        ---@class CacheArrayValues<T>
        ---@field [integer] T
        ---@field [integer] number
        ---@class CacheTupleValues<T>
        ---@field [1] T
        ---@field [1] number
        ---@class CacheInheritedArray: CacheArrayValues<string>
        ---@class CacheInheritedTuple: CacheTupleValues<string>
    "#,
    );
    for (source, narrow, wide) in [
        (
            "CacheArrayValues<string>",
            "string[]",
            "(string | number)[]",
        ),
        ("CacheInheritedArray", "string[]", "(string | number)[]"),
        ("CacheTupleValues<string>", "[string]", "[string | number]"),
        ("CacheInheritedTuple", "[string]", "[string | number]"),
    ] {
        let source = ws.ty(source);
        let narrow = ws.ty(narrow);
        let wide = ws.ty(wide);
        let db = &ws.db;
        let mut cache = SemanticLocalCache::default();
        assert_eq!(
            probe_assignable(db, &source, &narrow, Some(&mut cache)),
            Err(RelationFailure::Unrelated)
        );
        assert_eq!(
            probe_assignable(db, &source, &wide, Some(&mut cache)),
            Ok(())
        );
    }
}

#[test]
fn cached_lookup_preserves_inheritance_and_composite_members() {
    let mut ws = Workspace::new();
    ws.def(
        r#"
        ---@class CacheBase<T>
        ---@field inherited T
        ---@field shared T
        ---@field [integer] T
        ---@class CacheOther
        ---@field other boolean
        ---@field shared number
        ---@class CacheChild<T>: CacheBase<T>, CacheOther
        ---@field own T
        ---@field shared string
        ---@class CacheDiamond: CacheChild<string>, CacheBase<number>
        ---@class CacheCycleA: CacheCycleB
        ---@field a string
        ---@class CacheCycleB: CacheCycleA
        ---@field b number
        ---@alias CacheShape<T> { alias: T }
        ---@class CacheAliasChild<T>: CacheShape<T>
        ---@alias CacheIntersection { overlap: string | number } & { overlap: number }
        ---@class CacheIntersectionChild: CacheIntersection
        ---@class CacheObjectChild<T>: { direct: T }
        ---@class CacheTupleChild<T>: [T, boolean]
        ---@class CacheTableChild<T>: table<string, T>
        "#,
    );
    let mut keys: Vec<LuaMemberKey> = [
        "own", "shared", "inherited", "other", "a", "b", "alias", "overlap", "direct", "missing",
    ]
    .iter()
    .map(|key| name(key))
    .collect();
    keys.push(LuaMemberKey::Integer(1));
    keys.push(LuaMemberKey::TypeKey(LuaType::Integer));
    keys.push(LuaMemberKey::TypeKey(LuaType::String));
    let cases = [
        (
            "CacheChild<string>",
            vec![
                (name("own"), LuaType::String),
                (name("shared"), LuaType::String),
                (name("inherited"), LuaType::String),
                (name("other"), LuaType::Boolean),
                (LuaMemberKey::TypeKey(LuaType::Integer), LuaType::String),
            ],
        ),
        (
            "CacheChild<number>",
            vec![
                (name("own"), LuaType::Number),
                (name("shared"), LuaType::String),
                (name("inherited"), LuaType::Number),
                (name("other"), LuaType::Boolean),
                (LuaMemberKey::TypeKey(LuaType::Integer), LuaType::Number),
            ],
        ),
        (
            "CacheDiamond",
            vec![
                (name("own"), LuaType::String),
                (name("shared"), LuaType::String),
                (name("inherited"), LuaType::String),
                (name("other"), LuaType::Boolean),
                (LuaMemberKey::TypeKey(LuaType::Integer), LuaType::String),
            ],
        ),
        ("CacheCycleA", vec![(name("a"), LuaType::String)]),
        ("CacheCycleB", vec![(name("b"), LuaType::Number)]),
        ("CacheAliasChild<string>", vec![(name("alias"), LuaType::String)]),
        ("CacheIntersectionChild", vec![(name("overlap"), LuaType::Number)]),
        ("CacheObjectChild<number>", vec![(name("direct"), LuaType::Number)]),
        ("CacheTupleChild<string>", vec![(LuaMemberKey::Integer(1), LuaType::String)]),
        (
            "CacheTableChild<number>",
            vec![(LuaMemberKey::TypeKey(LuaType::String), LuaType::Number)],
        ),
    ];
    for (typ, members) in cases {
        let typ = ws.ty(typ);
        for key in &keys {
            let expected = members.iter().find(|(known, _)| known == key);
            let expected = expected.map(|(_, typ)| typ.clone());
            assert_eq!(ws.member_type(&typ, key), expected, "{typ:?}, {key:?}");
        }
    }
}

#[test]
fn union_lookup_keeps_common_keys_and_unions_their_types() {
    let mut ws = Workspace::new();
    ws.def(
        r#"
        ---@class UnionCacheBase<T>
        ---@field common T
        ---@field [1] T
        ---@class UnionCacheLeft: UnionCacheBase<string>
        ---@field left boolean
        ---@class UnionCacheRight: UnionCacheBase<number>
        ---@field right boolean
        ---@alias UnionCacheAlias UnionCacheLeft | UnionCacheRight
        ---@class UnionCacheChild: UnionCacheAlias
        ---@class UnionCacheOverride: UnionCacheAlias
        ---@field common boolean
        "#,
    );
    let left = ws.ty("UnionCacheLeft");
    let right = ws.ty("UnionCacheRight");
    let union = ws.ty("UnionCacheLeft | UnionCacheRight");
    let mut types = vec![
        union.clone(),
        ws.ty("UnionCacheRight | UnionCacheLeft"),
        ws.ty("UnionCacheAlias"),
        ws.ty("UnionCacheChild"),
    ];
    types.push(LuaType::MultiLineUnion(
        LuaMultiLineUnion::new(vec![(left.clone(), None), (right, None)]).into(),
    ));
    types.push(LuaType::Union(
        LuaUnionType::Multi(LuaUnionMembers::new(vec![left, union.clone()])).into(),
    ));
    types.push(LuaType::Union(
        LuaUnionType::Multi(LuaUnionMembers::new(vec![LuaType::Never, union, LuaType::Never]))
            .into(),
    ));
    let override_type = ws.ty("UnionCacheOverride");
    let expected = ws.ty("string | number");
    for typ in &types {
        let members = collect_members(&ws.db, typ);
        assert_eq!(members.len(), 2, "{typ:?}");
        assert!(members.iter().all(|(key, _)| !matches!(key, LuaMemberKey::TypeKey(_))));
        for key in [name("common"), LuaMemberKey::Integer(1)] {
            assert_eq!(ws.member_type(typ, &key), Some(expected.clone()));
        }
        for key in ["left", "right"] {
            assert_eq!(ws.member_type(typ, &name(key)), None);
        }
    }
    assert_eq!(ws.member_type(&override_type, &name("common")), Some(LuaType::Boolean));
}

#[test]
fn union_indexes_compare_instantiated_keys() {
    let mut ws = Workspace::new();
    ws.def(
        r#"
        ---@class UnionCacheMap<K, V>
        ---@field [K] V
        ---@class UnionCacheMapChild<K, V>: UnionCacheMap<K, V>
        "#,
    );
    let cases = [
        (
            "UnionCacheMap<string, string> | UnionCacheMap<string, number>",
            Some(("string", "string | number")),
        ),
        (
            "UnionCacheMapChild<string, string> | UnionCacheMapChild<string, number>",
            Some(("string", "string | number")),
        ),
        ("UnionCacheMap<string, string> | UnionCacheMap<integer, number>", None),
        (
            "{ [string]: string, [integer]: boolean } | { [string]: number }",
            Some(("string", "string | number")),
        ),
        ("string[] | number[]", Some(("integer", "string | number"))),
        ("table<string, string> | table<integer, number>", None),
        ("table<string, string> | { [string]: number }", Some(("string", "string | number"))),
        ("{ [string]: string } | {}", None),
    ];
    for (typ, index) in cases {
        let typ = ws.ty(typ);
        let members = collect_members(&ws.db, &typ);
        assert!(members.iter().all(|(key, _)| matches!(key, LuaMemberKey::TypeKey(_))));
        if let Some((key, value)) = index {
            let key = LuaMemberKey::TypeKey(ws.ty(key));
            let value = ws.ty(value);
            assert_eq!(members.len(), 1, "{typ:?}");
            assert_eq!(ws.member_type(&typ, &key), Some(value), "{typ:?}");
        } else {
            assert!(members.is_empty(), "{typ:?}");
        }
    }
}

#[test]
fn union_members_name_the_members_of_their_branches() {
    let mut ws = Workspace::new();
    ws.def("---@class UnionCacheLazy<T>\n---@field used T[]\n---@field unused T");
    let source = ws.ty("UnionCacheLazy<string> | UnionCacheLazy<number>");
    let expected = ws.ty("string[] | number[]");
    for (_, member) in collect_members(&ws.db, &source) {
        let MemberOrigin::Union(branches) = &member.origin else {
            panic!("expected a union member");
        };
        assert_eq!(branches.len(), 2);
    }
    assert_eq!(ws.member_type(&source, &name("used")), Some(expected));
}

#[test]
fn union_members_handle_empty_branches_cycles_and_duplicate_declarations() {
    let mut ws = Workspace::new();
    ws.def(
        r#"
        ---@class UnionCacheCycleA: UnionCacheCycleB
        ---@field a string
        ---@class UnionCacheCycleB: UnionCacheCycleA
        ---@field b number
        ---@class UnionCacheDuplicate
        ---@field value string
        ---@field value boolean
        ---@class UnionCacheNumber
        ---@field value number
        "#,
    );
    for typ in [
        "UnionCacheCycleA | {}",
        "{} | UnionCacheCycleA",
        "UnionCacheCycleA?",
        "UnionCacheCycleA | number",
        "{ left: string } | { right: number }",
    ] {
        let typ = ws.ty(typ);
        assert!(collect_members(&ws.db, &typ).is_empty(), "{typ:?}");
    }
    let cycle = ws.ty("UnionCacheCycleA | UnionCacheCycleB");
    let duplicate = ws.ty("UnionCacheDuplicate | UnionCacheNumber");
    let expected = ws.ty("string | boolean | number");
    assert!(collect_members(&ws.db, &cycle).is_empty());
    assert_eq!(ws.member_type(&duplicate, &name("value")), Some(expected));
}

#[test]
fn union_cache_preserves_branch_relations_and_diagnostics() {
    let mut ws = Workspace::new();
    ws.def(
        r#"
        ---@alias UnionCacheParent { common: string, left: boolean } | { common: number, right: boolean }
        ---@class UnionCacheInherited: UnionCacheParent
        "#,
    );
    let cases = [
        ("UnionCacheInherited", "{ common: string | number }", true),
        ("UnionCacheInherited", "{ common: string }", false),
        ("UnionCacheInherited", "{ left: boolean }", false),
        (
            "UnionCacheInherited & { extra: boolean }",
            "{ common: string, extra: boolean }",
            false,
        ),
        ("{ left: string } | { right: number }", "{}", true),
        ("{}", "{ left: string } | { right: number }", false),
        (
            "{ tag: 'a', value: string } | { tag: 'b', value: number }",
            "{ tag: 'a', value: number } | { tag: 'b', value: string }",
            false,
        ),
        ("fun(x: string) | fun(x: number)", "function", true),
        ("fun(x: string) | string", "function", false),
    ];
    let mut cache = SemanticLocalCache::default();
    for (source, target, related) in cases {
        let source = ws.ty(source);
        let target = ws.ty(target);
        let expected = check(&ws.db, &source, &target);
        assert_eq!(
            matches!(expected, AssignabilityResult::Assignable),
            related,
            "{source:?} -> {target:?}, {expected:?}"
        );
        for _ in 0..2 {
            assert_eq!(is_assignable(&ws.db, &source, &target, Some(&mut cache)), related);
            assert_eq!(check_assignable(&ws.db, &source, &target, Some(&mut cache)), expected);
        }
    }
}

#[test]
fn generic_members_and_call_signatures_are_instantiated() {
    let mut ws = Workspace::new();
    ws.def(
        r#"
        ---@class LazyCacheBase<T>
        ---@field used T
        ---@field unused T[]
        ---@field [T] T
        ---@operator call(T): T
        ---@class LazyCacheChild: LazyCacheBase<string>
        "#,
    );
    let typ = ws.ty("LazyCacheChild");
    let callable = ws.ty("fun(value: string): string");
    assert_eq!(ws.member_type(&typ, &name("used")), Some(LuaType::String));
    let members = collect_members(&ws.db, &typ);
    assert_eq!(members.len(), 3);
    let index = LuaMemberKey::TypeKey(LuaType::String);
    assert!(members.iter().any(|(key, _)| *key == index));
    assert!(ws.check_type(&typ, &callable));
}

#[test]
fn non_generic_parent_keeps_its_own_member_context() {
    let mut ws = Workspace::new();
    ws.def(
        r#"
        ---@class CacheMethodParent
        ---@class CacheMethodChild<T>: CacheMethodParent
        "#,
    );
    let run = LuaType::Signature(LuaSignatureId { file_id: FileId::new(1), position: 40 });
    let owner = LuaMemberOwner::Type(LuaTypeDeclId::global("CacheMethodParent"));
    ws.add_member(owner, name("run"), Some(run.clone()));
    let typ = ws.ty("CacheMethodChild<string>");
    let members = collect_members(&ws.db, &typ);
    assert_eq!(members.len(), 1);
    assert!(members[0].1.substitutor.is_none());
    assert_eq!(members[0].1.typ(&ws.db), run);
    assert_eq!(ws.member_type(&typ, &name("run")), Some(run));
}

#[test]
fn lookup_and_enumeration_share_duplicate_declaration_type() {
    let mut ws = Workspace::new();
    ws.def(
        r#"
        ---@class CacheDuplicate
        ---@field value string
        ---@field value number
        "#,
    );
    let typ = ws.ty("CacheDuplicate");
    let string_field = ws.ty("{ value: string }");
    let number_field = ws.ty("{ value: number }");
    let union = ws.ty("string | number");
    let db = &ws.db;
    let mut cache = SemanticLocalCache::default();
    let members = collect_members(db, &typ);
    assert_eq!(members.len(), 1);
    assert_eq!(ws.member_type(&typ, &name("value")), Some(union.clone()));
    assert_eq!(members[0].1.typ(&ws.db), union);
    assert!(!is_assignable(db, &typ, &string_field, Some(&mut cache)));
    assert!(is_assignable(db, &number_field, &typ, Some(&mut cache)));
}

#[test]
fn unresolved_members_keep_their_symbols_and_override_parents() {
    let mut ws = Workspace::new();
    ws.def(
        r#"
        ---@class CacheResolvedParent<T>
        ---@field value T
        ---@class CacheUnresolvedPlain: CacheResolvedParent<string>
        ---@class CacheUnresolvedGeneric<T>: CacheResolvedParent<T>
        "#,
    );
    for id in ["CacheUnresolvedPlain", "CacheUnresolvedGeneric"] {
        let owner = LuaMemberOwner::Type(LuaTypeDeclId::global(id));
        ws.add_member(owner, name("value"), None);
    }
    let plain = ws.ty("CacheUnresolvedPlain");
    let generic = ws.ty("CacheUnresolvedGeneric<string>");
    let empty = ws.ty("{}");
    let mut cache = SemanticLocalCache::default();
    for typ in [&plain, &generic] {
        let members = collect_members(&ws.db, typ);
        assert_eq!(members.len(), 1);
        assert_eq!(ws.member_type(typ, &name("value")), Some(LuaType::Unknown));
        assert_eq!(members[0].1.typ(&ws.db), LuaType::Unknown);
        assert!(is_assignable(&ws.db, &empty, typ, Some(&mut cache)));
    }
}

#[test]
fn inherited_members_use_the_same_override_order() {
    let mut ws = Workspace::new();
    ws.def(
        r#"
        ---@class CacheFirstParent
        ---@field value string
        ---@class CacheSecondParent
        ---@field value number
        ---@class CacheEmptyChild: CacheFirstParent, CacheSecondParent
        "#,
    );
    let typ = ws.ty("CacheEmptyChild");
    let source = ws.ty("{ value: string }");
    let mismatch = ws.ty("{ value: number }");
    let types: Vec<LuaType> =
        collect_members(&ws.db, &typ).iter().map(|(_, member)| member.typ(&ws.db)).collect();
    assert_eq!(types, vec![LuaType::String]);
    assert_eq!(ws.member_type(&typ, &name("value")), Some(LuaType::String));
    assert!(ws.check_type(&source, &typ));
    assert!(!ws.check_type(&mismatch, &typ));
}

#[test]
fn a_new_cache_forgets_the_answers_for_an_older_index() {
    let mut ws = Workspace::new();
    ws.def("---@class CachedModel\n---@field value string");
    let source = ws.ty("CachedModel");
    let target = ws.ty("{ value: string }");
    let mut cache = SemanticLocalCache::default();
    assert!(is_assignable(&ws.db, &source, &target, Some(&mut cache)));
    assert!(is_assignable(&ws.db, &source, &target, Some(&mut cache)));
    let mut ws = Workspace::new();
    ws.def("---@class CachedModel\n---@field value number");
    let mut cache = SemanticLocalCache::default();
    assert!(!is_assignable(&ws.db, &source, &target, Some(&mut cache)));
    assert!(!is_assignable(&ws.db, &source, &target, Some(&mut cache)));
}

#[test]
fn symbols_hold_the_types_as_they_are_written() {
    let mut ws = Workspace::new();
    ws.def(
        r#"
        ---@alias LazySymbolShape<K, V> { used: V[], unused: { nested: V }, [K]: V }
        ---@class LazySymbolChild<T>: LazySymbolShape<string, T>
        ---@field own T
        "#,
    );
    let typ = ws.ty("LazySymbolChild<number>");
    let expected = ws.ty("number[]");
    assert_eq!(ws.member_type(&typ, &name("missing")), None);
    let members = collect_members(&ws.db, &typ);
    assert_eq!(members.len(), 4);
    let index = LuaMemberKey::TypeKey(LuaType::String);
    assert!(members.iter().any(|(key, _)| *key == index));
    let (_, used) = members.iter().find(|(key, _)| *key == name("used")).unwrap();
    let MemberOrigin::Type(LuaType::Array(raw)) = &used.origin else {
        panic!("expected an uninstantiated alias field");
    };
    assert!(matches!(raw.get_base(), LuaType::TplRef(_)));
    assert_eq!(used.typ(&ws.db), expected);
}

#[test]
fn intersection_members_merge_their_branches() {
    let mut ws = Workspace::new();
    let typ = ws.ty("{ value: string | number, left: boolean } & { value: number, right: string }");
    let members = collect_members(&ws.db, &typ);
    assert_eq!(members.len(), 3);
    let (_, value) = members.iter().find(|(key, _)| *key == name("value")).unwrap();
    assert!(matches!(value.origin, MemberOrigin::Intersection(_)));
    assert_eq!(value.typ(&ws.db), LuaType::Number);
}

#[test]
fn repeated_generic_parents_keep_distinct_index_symbols() {
    let mut ws = Workspace::new();
    ws.def(
        r#"
        ---@class CacheIndexParent<K, V>
        ---@field [K] V
        ---@class CacheIndexChild: CacheIndexParent<string, boolean>, CacheIndexParent<integer, number>
        "#,
    );
    let typ = ws.ty("CacheIndexChild");
    assert_eq!(collect_members(&ws.db, &typ).len(), 2);
    assert_eq!(
        ws.member_type(&typ, &LuaMemberKey::TypeKey(LuaType::String)),
        Some(LuaType::Boolean)
    );
    assert_eq!(
        ws.member_type(&typ, &LuaMemberKey::TypeKey(LuaType::Integer)),
        Some(LuaType::Number)
    );
}

#[test]
fn recursive_alias_fields_unfold_once() {
    let mut ws = Workspace::new();
    ws.def("---@alias CacheLazyNode<T> { value: T, next: CacheLazyNode<T>? }");
    let typ = ws.ty("CacheLazyNode<string>");
    let expected = ws.ty("CacheLazyNode<string>?");
    assert_eq!(collect_members(&ws.db, &typ).len(), 2);
    assert_eq!(ws.member_type(&typ, &name("value")), Some(LuaType::String));
    assert_eq!(ws.member_type(&typ, &name("next")), Some(expected));
}

#[test]
fn global_symbols_are_the_global_variables() {
    let mut ws = Workspace::new();
    let used = LuaType::StringConst("value".to_string());
    let unused = ws.expr_ty("{ value = 1 }");
    tables(&mut ws.db).globals.push(("cache_global_used".to_string(), Some(used.clone())));
    tables(&mut ws.db).globals.push(("cache_global_unused".to_string(), Some(unused)));
    let members = collect_members(&ws.db, &LuaType::Global);
    assert_eq!(members.len(), 2);
    assert_eq!(ws.member_type(&LuaType::Global, &name("cache_global_used")), Some(used));
    assert!(members.iter().all(|(_, member)| matches!(member.origin, MemberOrigin::Decl(_))));
}

#[test]
fn nested_alias_arguments_keep_their_members() {
    let mut ws = Workspace::new();
    ws.def(
        r#"
        ---@alias CacheIdentity<T> T
        ---@alias CacheExtension<T> T & { flag: boolean }
        "#,
    );
    for typ in [
        "CacheIdentity<CacheIdentity<{ value: string }>>",
        "CacheExtension<CacheExtension<{ value: string }>>",
    ] {
        let typ = ws.ty(typ);
        assert_eq!(ws.member_type(&typ, &name("value")), Some(LuaType::String));
    }
}

#[test]
fn union_ignores_branches_instantiated_to_never() {
    let mut ws = Workspace::new();
    ws.def(
        r#"
        ---@alias CacheMaybe<T> T | { value: string }
        ---@alias CacheImpossible<T> never
        "#,
    );
    for typ in ["CacheMaybe<never>", "CacheMaybe<CacheImpossible<string>>"] {
        let typ = ws.ty(typ);
        assert_eq!(ws.member_type(&typ, &name("value")), Some(LuaType::String));
    }
}

#[test]
fn generic_tuple_alias_resolves_variadic_slots() {
    let mut ws = Workspace::new();
    ws.def("---@alias CacheTupleTail<T> [T[], T...]");
    let typ = ws.ty("CacheTupleTail<string>");
    assert_eq!(ws.member_type(&typ, &LuaMemberKey::Integer(2)), Some(LuaType::String));
    let members = collect_members(&ws.db, &typ);
    let (_, unused) = members.iter().find(|(key, _)| *key == LuaMemberKey::Integer(1)).unwrap();
    let MemberOrigin::Type(LuaType::Array(raw)) = &unused.origin else {
        panic!("expected an uninstantiated tuple field");
    };
    assert!(matches!(raw.get_base(), LuaType::TplRef(_)));
}

#[test]
fn recursive_alias_shapes_stop_when_arguments_keep_growing() {
    let mut ws = Workspace::new();
    ws.def("---@alias CacheGrowing<T> CacheGrowing<T[]>");
    let typ = ws.ty("CacheGrowing<string>");
    assert!(collect_members(&ws.db, &typ).is_empty());
    assert_eq!(ws.member_type(&typ, &LuaMemberKey::Integer(1)), None);
}

#[test]
fn a_kept_answer_is_used_again() {
    let ws = Workspace::new();
    let mut cache = SemanticLocalCache::default();
    let array = array_of(LuaType::Integer);
    assert!(is_assignable(&ws.db, &array, &array_of(LuaType::Number), Some(&mut cache)));
    let kept = cache.relations.get(&array, &array_of(LuaType::Number), IntersectionState::Plain);
    assert_eq!(kept, Some(true));
    assert!(is_assignable(&ws.db, &array, &array_of(LuaType::Number), Some(&mut cache)));
}

#[test]
fn sure_answers_are_never_taken_for_granted() {
    let db = DbIndex::new();
    let mut source = LuaType::String;
    let mut target = LuaType::Number;
    for _ in 0..101 {
        source = array_of(source);
        target = array_of(target);
    }
    assert!(is_assignable(&db, &source, &target, None));
    assert!(!is_surely_assignable(&db, &source, &target));
    assert!(is_surely_assignable(&db, &LuaType::Integer, &LuaType::Number));
    assert!(!is_surely_assignable(&db, &LuaType::Number, &LuaType::Integer));
}

#[test]
fn everything_fits_any() {
    let mut ws = Workspace::new();
    for typ in ["nil", "string", "{ value: string }", "fun(x: string): integer", "integer[]"] {
        let typ = ws.ty(typ);
        assert!(ws.check_type(&typ, &LuaType::Any));
    }
}

#[test]
fn reasons_name_the_part_that_does_not_fit() {
    let mut ws = Workspace::new();
    let cases = [
        ("fun(x: string)", "fun(x: number)", ChainMessage::FunctionParameter { index: 0 }),
        ("[string]", "[number]", ChainMessage::TupleElement { index: 0 }),
        ("[string]", "[string, number]", ChainMessage::MissingTupleElement { index: 1 }),
        ("string[]", "number[]", ChainMessage::ArrayElement),
        ("integer[]", "[integer, integer]", ChainMessage::TooFewElements { count: 2 }),
        (
            "table<string, string>",
            "table<string, number>",
            ChainMessage::GenericArgument { index: 1 },
        ),
        (
            "{ [1]: string }",
            "{ [1]: number }",
            ChainMessage::Property { key: LuaMemberKey::Integer(1) },
        ),
        (
            "{ [string]: string }",
            "{ [string]: number }",
            ChainMessage::IndexKey { key_type: LuaType::String },
        ),
    ];
    for (source, target, message) in cases {
        let source = ws.ty(source);
        let target = ws.ty(target);
        let AssignabilityResult::NotAssignable(Some(chain)) = check(&ws.db, &source, &target) else {
            panic!("{source:?} should not fit {target:?}");
        };
        assert!(chain_messages(&chain).contains(&message), "{message:?}, {chain:?}");
    }
}

#[test]
fn decided_comparisons_repeat() {
    let mut ws = Workspace::new();
    ws.def(
        r#"
        ---@class RepeatedSource
        ---@field next RepeatedSource
        ---@class RepeatedTarget
        ---@field next RepeatedTarget
        ---@field value string
        "#,
    );
    let source = ws.ty("RepeatedSource");
    let target = ws.ty("RepeatedTarget");
    let mut cache = SemanticLocalCache::default();
    for (from, to) in [(&source, &target), (&target, &source)] {
        let first = probe_assignable(&ws.db, from, to, Some(&mut cache));
        let again = probe_assignable(&ws.db, from, to, Some(&mut cache));
        assert_eq!(first, again);
        assert_eq!(
            cache.relations.get(from, to, IntersectionState::Plain),
            Some(first.is_ok())
        );
    }
}

fn operator(kind: LuaAliasCallKind, operands: Vec<LuaType>) -> LuaType {
    LuaType::Call(Arc::new(LuaAliasCallType::new(kind, operands)))
}

fn alias_for(ws: &mut Workspace, head: &str, origin: LuaType) {
    ws.def(&format!("---@alias {head} any"));
    let (id, _) = head.split_once('<').unwrap_or((head, ""));
    ws.decl(id, LuaDeclKind::Alias).alias_ref = Some(origin);
}

fn literal(text: &str) -> LuaType {
    LuaType::DocStringConst(text.to_string())
}

#[test]
fn alias_key_names_a_member() {
    let mut ws = Workspace::new();
    ws.def("---@alias MemberKey \"a\"");
    let object = ws.ty("{ a: string }");
    let key = ws.ty("MemberKey");
    let member = operator(LuaAliasCallKind::Index, vec![object.clone(), key.clone()]);
    assert!(ws.check_type(&LuaType::String, &member));
    assert!(!ws.check_type(&LuaType::Number, &member));
    assert!(ws.check_type(&member, &LuaType::String));
    let raw = operator(LuaAliasCallKind::RawGet, vec![object, key]);
    assert!(ws.check_type(&LuaType::String, &raw));
    assert!(!ws.check_type(&LuaType::Number, &raw));
}

#[test]
fn operators_inside_operators_are_resolved() {
    let mut ws = Workspace::new();
    let object = ws.ty("{ a: string, b: number }");
    let keys = operator(LuaAliasCallKind::KeyOf, vec![object.clone()]);
    let s = TypeSubstitutor::new();
    assert_eq!(
        instantiate_type_generic(&ws.db, &keys, &s),
        TypeOps::union(&literal("a"), &literal("b"))
    );
    let values = operator(LuaAliasCallKind::Index, vec![object, keys.clone()]);
    let expected = ws.ty("string | number");
    assert_eq!(instantiate_type_generic(&ws.db, &values, &s), expected);
    assert!(ws.check_type(&LuaType::String, &values));
    assert!(ws.check_type(&LuaType::Number, &values));
    assert!(!ws.check_type(&LuaType::Boolean, &values));
    let nested = LuaType::Array(Arc::new(LuaArrayType::from_base_type(keys)));
    assert!(ws.check_type(&array_of(literal("b")), &nested));
    assert!(!ws.check_type(&array_of(literal("c")), &nested));
}

#[test]
fn operator_behind_an_alias_is_resolved() {
    let mut ws = Workspace::new();
    let keys = operator(LuaAliasCallKind::KeyOf, vec![type_template(0, "T")]);
    alias_for(&mut ws, "Keys<T>", keys);
    let typ = ws.ty("Keys<{ a: string }>");
    assert!(ws.check_type(&literal("a"), &typ));
    assert!(!ws.check_type(&literal("b"), &typ));
    let both = operator(
        LuaAliasCallKind::Merge,
        vec![type_template(0, "T"), ws.ty("{ extra: boolean }")],
    );
    alias_for(&mut ws, "WithExtra<T>", both);
    let typ = ws.ty("WithExtra<{ a: string }>");
    assert_eq!(ws.member_type(&typ, &name("a")), Some(LuaType::String));
    assert_eq!(ws.member_type(&typ, &name("extra")), Some(LuaType::Boolean));
}

#[test]
fn condition_behind_an_alias_is_decided() {
    let mut ws = Workspace::new();
    let inner = LuaType::Conditional(Arc::new(LuaConditionalType::new(
        type_template(0, "T"),
        LuaType::Number,
        ws.ty("{ number: number }"),
        ws.ty("{ other: boolean }"),
        Vec::new(),
        false,
    )));
    let outer = LuaType::Conditional(Arc::new(LuaConditionalType::new(
        type_template(0, "T"),
        LuaType::String,
        ws.ty("{ text: string }"),
        inner,
        Vec::new(),
        false,
    )));
    alias_for(&mut ws, "Shape<T>", outer);
    for (typ, field, value) in [
        ("Shape<string>", "text", LuaType::String),
        ("Shape<number>", "number", LuaType::Number),
        ("Shape<boolean>", "other", LuaType::Boolean),
    ] {
        let typ = ws.ty(typ);
        assert_eq!(collect_members(&ws.db, &typ).len(), 1, "{typ:?}");
        assert_eq!(ws.member_type(&typ, &name(field)), Some(value));
    }
    let text = ws.ty("{ text: string }");
    let number = ws.ty("{ number: number }");
    let target = ws.ty("Shape<string>");
    assert!(ws.check_type(&text, &target));
    assert!(!ws.check_type(&number, &target));
    assert!(ws.check_type(&target, &text));
}

#[test]
fn answers_agree_with_and_without_reasons() {
    let mut ws = Workspace::new();
    ws.def(
        r#"
        ---@class AgreeingSource
        ---@field next AgreeingSource
        ---@field value string
        ---@class AgreeingTarget
        ---@field next AgreeingTarget
        ---@field value number
        "#,
    );
    let source = ws.ty("AgreeingSource");
    let target = ws.ty("AgreeingTarget");
    let union = ws.ty("AgreeingSource | AgreeingTarget");
    for (from, to) in [
        (&source, &target),
        (&source, &union),
        (&union, &source),
        (&target, &target),
    ] {
        let expected = check(&ws.db, from, to);
        let refused = matches!(expected, AssignabilityResult::NotAssignable(_));
        let mut cache = SemanticLocalCache::default();
        assert_eq!(is_assignable(&ws.db, from, to, Some(&mut cache)), !refused);
        for _ in 0..2 {
            assert_eq!(check_assignable(&ws.db, from, to, Some(&mut cache)), expected);
            assert_eq!(is_assignable(&ws.db, from, to, Some(&mut cache)), !refused);
        }
    }
}

#[test]
fn infer_patterns_bind_their_templates() {
    let mut ws = Workspace::new();
    let element = LuaType::TplRef(Arc::new(GenericTpl::new(
        GenericTplId::ConditionalInfer(0),
        "E".to_string(),
        None,
        None,
        false,
        None,
    )));
    let conditional = LuaType::Conditional(Arc::new(LuaConditionalType::new(
        type_template(0, "T"),
        array_of(element.clone()),
        element,
        LuaType::Never,
        Vec::new(),
        false,
    )));
    alias_for(&mut ws, "Element<T>", conditional);
    let typ = ws.ty("Element<string[]>");
    assert!(ws.check_type(&LuaType::String, &typ));
    assert!(!ws.check_type(&LuaType::Number, &typ));
}

#[test]
fn reason_may_move_once_a_recursive_pair_is_known_to_fail() {
    let mut ws = Workspace::new();
    ws.def(
        r#"
        ---@class MovingOther
        ---@field next boolean
        ---@class MovingSource
        ---@field next MovingSource
        ---@field value string
        ---@class MovingTarget
        ---@field next MovingOther | MovingTarget
        ---@field value number
        "#,
    );
    let source = ws.ty("MovingSource");
    let target = ws.ty("MovingTarget");
    let mut cache = SemanticLocalCache::default();
    let first = check_assignable(&ws.db, &source, &target, Some(&mut cache));
    let again = check_assignable(&ws.db, &source, &target, Some(&mut cache));
    let head = |result: &AssignabilityResult| match result {
        AssignabilityResult::NotAssignable(Some(chain)) => chain_messages(chain)[0].clone(),
        other => panic!("{other:?}"),
    };
    assert_eq!(head(&first), ChainMessage::Field { name: "value".to_string() });
    assert_ne!(head(&again), head(&first));
}

#[test]
fn recursive_union_is_refused_silently_and_accepted_when_explained() {
    let mut ws = Workspace::new();
    ws.def(
        r#"
        ---@class LoopingSource
        ---@field item LoopingSource | string
        ---@class LoopingTarget
        ---@field item LoopingTarget
        "#,
    );
    let source = ws.ty("LoopingSource");
    let target = ws.ty("LoopingTarget");
    let mut cache = SemanticLocalCache::default();
    assert!(!is_assignable(&ws.db, &source, &target, Some(&mut cache)));
    assert_eq!(
        check_assignable(&ws.db, &source, &target, Some(&mut cache)),
        AssignabilityResult::Assignable
    );
    assert!(matches!(check(&ws.db, &source, &target), AssignabilityResult::NotAssignable(_)));
}

#[test]
fn refused_data_is_explained_the_same_way_each_time() {
    let mut ws = Workspace::new();
    let misfit = |source: &LuaType, target: &LuaType| ChainMessage::NotAssignable {
        source: source.clone(),
        target: target.clone(),
    };
    let field = |name: &str| ChainMessage::Field { name: name.to_string() };
    let source_tag = ws.ty("boolean | string");
    let target_tag = ws.ty("number | string");
    let cases = [
        (
            ws.ty("{ id: string, tag: boolean | string }"),
            ws.ty("{ id: string, tag: number | string }"),
            vec![
                field("tag"),
                misfit(&source_tag, &target_tag),
                misfit(&LuaType::Boolean, &target_tag),
            ],
        ),
        (
            ws.ty("{ outer: { name: number } }"),
            ws.ty("{ outer: { name: string | nil } }"),
            vec![field("outer.name"), misfit(&LuaType::Number, &LuaType::String)],
        ),
        (
            ws.ty("{ kind: string }"),
            ws.ty("{ other: string } | { kind: number }"),
            vec![field("kind"), misfit(&LuaType::String, &LuaType::Number)],
        ),
        (LuaType::Nil, ws.ty("{ a: string }"), vec![misfit(&LuaType::Nil, &ws.ty("{ a: string }"))]),
    ];
    for (source, target, expected) in &cases {
        let mut cache = SemanticLocalCache::default();
        assert!(!is_assignable(&ws.db, source, target, Some(&mut cache)));
        for _ in 0..3 {
            let AssignabilityResult::NotAssignable(Some(chain)) =
                check_assignable(&ws.db, source, target, Some(&mut cache))
            else {
                panic!("{source:?}, {target:?}");
            };
            assert_eq!(chain_messages(&chain), *expected);
        }
        assert_eq!(
            check_assignable(&ws.db, source, target, Some(&mut cache)),
            check(&ws.db, source, target)
        );
    }
    let absent = ws.ty("{ a: string | nil, b: number | string | nil }");
    let other = ws.ty("{ c: string }");
    assert!(is_assignable(&ws.db, &other, &absent, None));
}

#[test]
fn refused_classes_are_explained_the_same_way_each_time() {
    let mut ws = Workspace::new();
    ws.def(
        r#"
        ---@class RefusedInner
        ---@field value string
        ---@class RefusedOther
        ---@field value number
        ---@class RefusedSource
        ---@field name string
        ---@field inner RefusedInner
        ---@class RefusedTarget
        ---@field name string
        ---@field inner RefusedOther | boolean
        "#,
    );
    let source = ws.ty("RefusedSource");
    let target = ws.ty("RefusedTarget");
    let expected = vec![
        ChainMessage::Field { name: "inner.value".to_string() },
        ChainMessage::NotAssignable { source: LuaType::String, target: LuaType::Number },
    ];
    let mut cache = SemanticLocalCache::default();
    for _ in 0..3 {
        let AssignabilityResult::NotAssignable(Some(chain)) =
            check_assignable(&ws.db, &source, &target, Some(&mut cache))
        else {
            panic!("{source:?}, {target:?}");
        };
        assert_eq!(chain_messages(&chain), expected);
        assert!(!is_assignable(&ws.db, &source, &target, Some(&mut cache)));
    }
}
