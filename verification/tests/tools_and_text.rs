use gtaurus_server::text::{chars_of, split_lines, split_words, trim_chars};
use gtaurus_server::tool::{checked_tool_info_text, classify_tool, tool_info_text, ToolType};

fn lines_of(s: &str) -> Vec<String> {
    split_lines(&chars_of(s)).iter().map(|l| l.iter().collect()).collect()
}

#[test]
fn lines_match_std() {
    for s in ["", "a", "a\n", "a\nb", "a\r\nb\r\n", "\n\n", "a\r", "a\r\r\n", "\r\n", "x\ny\n\nz"] {
        let ours = lines_of(s);
        let std: Vec<String> = s.lines().map(|l| l.to_string()).collect();
        assert_eq!(ours, std, "input {:?}", s);
    }
}

#[test]
fn trim_and_words_match_std() {
    for s in ["", "  a b  ", "\u{3000}x\u{a0}", "\t\n y \r\n", "a\u{2003}b\u{85}c", "  "] {
        let t: String = trim_chars(&chars_of(s)).iter().collect();
        assert_eq!(t, s.trim(), "trim {:?}", s);
        let w: Vec<String> = split_words(&chars_of(s)).iter().map(|x| x.iter().collect()).collect();
        let std: Vec<String> = s.split_whitespace().map(|x| x.to_string()).collect();
        assert_eq!(w, std, "words {:?}", s);
    }
}

#[test]
fn tool_kinds() {
    assert_eq!(classify_tool("6mm flat endmill"), ToolType::FlatEndMill);
    assert_eq!(classify_tool("3mm ball endmill"), ToolType::BallNose);
    assert_eq!(classify_tool("90deg v-bit"), ToolType::VBit);
    assert_eq!(classify_tool("chamfer 45"), ToolType::Chamfer);
    assert_eq!(classify_tool("bull nose"), ToolType::BullNose);
    assert_eq!(classify_tool("fly cutter"), ToolType::Surfacing);
    assert_eq!(classify_tool("drill"), ToolType::Unknown);
    assert_eq!(ToolType::FlatEndMill.as_str(), "flatendmill");
    assert_eq!(ToolType::Unknown.as_str(), "unknown");
}

#[test]
fn tool_info_reads_a_lowercased_name() {
    let t = tool_info_text(Some("6.35MM Flat ENDMILL"));
    assert_eq!(t.tool_type, ToolType::FlatEndMill);
    assert_eq!(t.diameter.as_deref(), Some("6.35"));
    assert!(t.angle_candidates.is_empty());

    let t = tool_info_text(Some("V-Bit 60° 1/4in 3mm"));
    assert_eq!(t.tool_type, ToolType::VBit);
    assert_eq!(t.diameter.as_deref(), Some("3"));
    assert_eq!(t.angle_candidates, vec!["60".to_string()]);

    let t = tool_info_text(Some("Chamfer x90deg 45deg"));
    assert_eq!(t.angle_candidates, vec!["x90".to_string(), "45".to_string()]);
    assert_eq!(t.diameter, None);

    let t = tool_info_text(Some("mm"));
    assert_eq!(t.diameter, None);
    let t = tool_info_text(Some("Tool 12mm"));
    assert_eq!(t.diameter.as_deref(), Some("12"));
    let t = tool_info_text(Some("1mm"));
    assert_eq!(t.diameter, None);
    let t = tool_info_text(Some("12mm"));
    assert_eq!(t.diameter.as_deref(), Some("12"));

    let t = tool_info_text(None);
    assert_eq!(t.tool_type, ToolType::Unknown);
    assert_eq!(t.diameter, None);
    assert!(t.angle_candidates.is_empty());
}

#[test]
fn tool_info_refuses_names_that_cannot_be_cut() {
    assert!(checked_tool_info_text(Some("x°5mm")).is_none());
    assert!(checked_tool_info_text(Some("°°")).is_some());
    assert!(checked_tool_info_text(Some("é12mm")).is_none());
    let t = checked_tool_info_text(Some("a12mm")).unwrap();
    assert_eq!(t.diameter.as_deref(), Some("12"));
    assert!(checked_tool_info_text(None).is_some());
}

#[test]
fn ascii_name_case_is_ignored() {
    for name in ["Ball ENDMILL 3MM 30DEG", "6mm EndMill", "FLY Cutter 50MM", "V-BIT 90Deg"] {
        let lower = name.to_lowercase();
        let a = tool_info_text(Some(name));
        let b = tool_info_text(Some(&lower));
        assert_eq!(a.tool_type, b.tool_type, "name {:?}", name);
        assert_eq!(a.diameter, b.diameter, "name {:?}", name);
        assert_eq!(a.angle_candidates, b.angle_candidates, "name {:?}", name);
    }
    let t = checked_tool_info_text(Some("6mm EndMill")).unwrap();
    assert_eq!(t.diameter, None);
    assert_eq!(t.tool_type, ToolType::FlatEndMill);
    let t = checked_tool_info_text(Some("T1 6MM EndMill")).unwrap();
    assert_eq!(t.diameter.as_deref(), Some("6"));
    let t = tool_info_text(Some("Ball ENDMILL 3MM 30DEG"));
    assert_eq!(t.tool_type, ToolType::BallNose);
    assert_eq!(t.diameter.as_deref(), Some("3"));
    assert_eq!(t.angle_candidates, vec!["30".to_string()]);
}
