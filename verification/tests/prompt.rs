use hunkle::prompt::{
    AgentPaneDirection, HerdrPaneLayout, HerdrPaneRect, HerdrPrompt, HitTarget, PendingAgent,
};

fn pane(id: &str, x: u16) -> HerdrPaneRect {
    HerdrPaneRect { pane_id: id.to_string(), x, y: 0, width: 40, height: 20 }
}

fn prompt_with_panes(count: usize, focus: Option<HitTarget>) -> HerdrPrompt {
    let mut prompt = HerdrPrompt::new();
    let panes = (0..count).map(|i| pane(&format!("w1:p{}", i + 1), (i as u16) * 40)).collect();
    prompt.pending_agent = Some(PendingAgent {
        request_id: 1,
        path: "/tmp/project".to_string(),
        host_pane_id: "w1:p1".to_string(),
        layout: Some(HerdrPaneLayout {
            workspace_id: "w1".to_string(),
            x: 0,
            y: 0,
            width: 80,
            height: 20,
            panes,
        }),
        pane_focus: focus,
        session_id: None,
    });
    prompt
}

#[test]
fn pane_focus_cycles_forward_through_every_stop_and_back() {
    let start = HitTarget::AgentPane(1);
    let mut prompt = prompt_with_panes(2, Some(start));
    let expected = [
        HitTarget::AgentPaneSplit(1, AgentPaneDirection::Up),
        HitTarget::AgentPaneSplit(1, AgentPaneDirection::Right),
        HitTarget::AgentPaneSplit(1, AgentPaneDirection::Down),
        HitTarget::AgentPaneSplit(1, AgentPaneDirection::Left),
        HitTarget::AgentPane(0),
        HitTarget::AgentPaneSplit(0, AgentPaneDirection::Up),
        HitTarget::AgentPaneSplit(0, AgentPaneDirection::Right),
        HitTarget::AgentPaneSplit(0, AgentPaneDirection::Down),
        HitTarget::AgentPaneSplit(0, AgentPaneDirection::Left),
        HitTarget::AgentPane(1),
    ];
    for want in expected {
        prompt.cycle_agent_pane_focus(false);
        assert_eq!(prompt.agent_pane_focus(), Some(want));
    }
}

#[test]
fn pane_focus_cycle_backwards_undoes_a_step() {
    let start = HitTarget::AgentPaneSplit(0, AgentPaneDirection::Right);
    let mut prompt = prompt_with_panes(3, Some(start));
    prompt.cycle_agent_pane_focus(false);
    assert_eq!(
        prompt.agent_pane_focus(),
        Some(HitTarget::AgentPaneSplit(0, AgentPaneDirection::Down))
    );
    prompt.cycle_agent_pane_focus(true);
    assert_eq!(prompt.agent_pane_focus(), Some(start));
}

#[test]
fn pane_focus_cycle_backwards_wraps_from_the_first_stop() {
    let mut prompt = prompt_with_panes(2, Some(HitTarget::AgentPane(0)));
    prompt.cycle_agent_pane_focus(true);
    assert_eq!(
        prompt.agent_pane_focus(),
        Some(HitTarget::AgentPaneSplit(1, AgentPaneDirection::Left))
    );
}
